use denia::agent::assembly::{
    apply_preset, apply_tool_allowlist, apply_tool_blocklist, section_tools, AssembledContext,
    AssembledSection, PromptAssembly, SectionAudience, PERSONA_SECTION,
};
use denia::agent::driver::{preset_features, preset_for, PresetRoster};
use denia::json::{parse, Json};
use denia::preset::{
    builtin_presets, is_valid_preset_id, AgentPreset, PresetFeatures, PresetSpec, PresetTrust,
    DEFAULT_PRESET_ID,
};
use denia::tool::ToolSchema;

fn json(text: &str) -> Json {
    parse(text).expect("the text is JSON")
}

fn schema(name: &str) -> ToolSchema {
    ToolSchema {
        name: name.to_string(),
        description: format!("{name} 工具"),
        parameters: json(r#"{"type": "object", "properties": {}}"#),
    }
}

fn bash_schema() -> ToolSchema {
    ToolSchema {
        name: "bash".to_string(),
        description: "bash 工具".to_string(),
        parameters: json(
            r#"{
                "type": "object",
                "properties": {"command": {"type": "string"}, "run_in_background": {"type": "boolean"}},
                "required": ["command"]
            }"#,
        ),
    }
}

fn section(name: &str) -> AssembledSection {
    AssembledSection {
        name: name.to_string(),
        text: format!("{name} 正文"),
        audience: SectionAudience::Model,
    }
}

fn assembly() -> PromptAssembly {
    PromptAssembly {
        sections: vec![
            section("deployment:persona"),
            section("tool:bash"),
            section("tool:goal"),
            section("tool:memory"),
            section("context:file-reference"),
            section("harness:context-management"),
            section("harness:runtime"),
        ],
        contexts: Vec::new(),
        tools: vec![
            bash_schema(),
            schema("read_file"),
            schema("write_file"),
            schema("get_goal"),
            schema("update_goal"),
            schema("exit_plan"),
        ],
        variables: Vec::new(),
    }
}

fn preset(tools: Option<Vec<&str>>, persona: Option<&str>) -> AgentPreset {
    AgentPreset {
        id: "test".to_string(),
        name: "测试".to_string(),
        description: String::new(),
        trust: PresetTrust::User,
        tools: tools.map(|names| names.into_iter().map(str::to_string).collect()),
        persona: persona.map(str::to_string),
        persona_complete: false,
        features: PresetFeatures::default(),
        path: None,
    }
}

fn tool_names(assembly: &PromptAssembly) -> Vec<&str> {
    assembly.tools.iter().map(|s| s.name.as_str()).collect()
}

fn section_names(assembly: &PromptAssembly) -> Vec<&str> {
    assembly.sections.iter().map(|s| s.name.as_str()).collect()
}

#[test]
fn allowlist_keeps_tools_and_their_sections_in_step() {
    let mut assembly = assembly();
    apply_preset(&mut assembly, &preset(Some(vec!["bash"]), None));
    assert_eq!(tool_names(&assembly), vec!["bash"]);
    assert_eq!(
        section_names(&assembly),
        vec![
            "deployment:persona",
            "tool:bash",
            "context:file-reference",
            "harness:context-management",
            "harness:runtime"
        ],
        "非工具段必须保留,拿不到的工具的纪律段必须移除"
    );
}

#[test]
fn full_toolset_preset_only_touches_persona() {
    let mut assembly = assembly();
    apply_preset(&mut assembly, &preset(None, Some("自定义 {{cwd}}")));
    assert_eq!(assembly.tools.len(), 6);
    let persona = &assembly.sections[0];
    assert!(persona.text.starts_with("自定义 {{cwd}}"));
    assert!(persona.text.contains("简体中文"));
    assert_eq!(assembly.sections.len(), 7);
}

#[test]
fn blank_persona_leaves_the_deployment_persona_alone() {
    let mut assembly = assembly();
    apply_preset(&mut assembly, &preset(None, Some("   ")));
    assert_eq!(assembly.sections[0].text, "deployment:persona 正文");
}

#[test]
fn persona_complete_leaves_only_the_persona_section() {
    let mut assembly = assembly();
    let mut p = preset(None, Some("一句话人格"));
    p.persona_complete = true;
    apply_preset(&mut assembly, &p);
    assert_eq!(assembly.sections.len(), 1);
    assert_eq!(assembly.sections[0].name, PERSONA_SECTION);
    assert!(assembly.sections[0].text.starts_with("一句话人格"));
    assert_eq!(assembly.tools.len(), 6);
}

#[test]
fn goal_feature_off_removes_goal_tools_and_their_section() {
    let mut assembly = assembly();
    let mut p = preset(None, None);
    p.features.goal = false;
    apply_preset(&mut assembly, &p);
    let tools = tool_names(&assembly);
    assert!(!tools.contains(&"get_goal"));
    assert!(!tools.contains(&"update_goal"));
    assert!(tools.contains(&"bash"));
    let sections = section_names(&assembly);
    assert!(!sections.contains(&"tool:goal"));
    assert!(sections.contains(&"tool:bash"));
}

#[test]
fn plan_mode_feature_off_removes_exit_plan() {
    let mut assembly = assembly();
    let mut p = preset(None, None);
    p.features.plan_mode = false;
    apply_preset(&mut assembly, &p);
    assert!(!assembly.tools.iter().any(|s| s.name == "exit_plan"));
    assert!(!assembly.sections.iter().any(|s| s.name == "tool:plan"));
}

#[test]
fn compaction_feature_off_removes_context_management_section() {
    let mut assembly = assembly();
    let mut p = preset(None, None);
    p.features.compaction = false;
    apply_preset(&mut assembly, &p);
    assert!(!assembly.sections.iter().any(|s| s.name == "harness:context-management"));
    assert!(assembly.sections.iter().any(|s| s.name == "tool:bash"));
}

#[test]
fn memory_feature_off_removes_memory_section() {
    let mut assembly = assembly();
    let mut p = preset(None, None);
    p.features.memory = false;
    apply_preset(&mut assembly, &p);
    assert!(!assembly.sections.iter().any(|s| s.name == "tool:memory"));
    assert!(assembly.tools.iter().any(|s| s.name == "write_file"));
}

#[test]
fn jobs_feature_off_strips_run_in_background_from_bash() {
    let mut assembly = assembly();
    let mut p = preset(None, None);
    p.features.jobs = false;
    apply_preset(&mut assembly, &p);
    let bash = assembly.tools.iter().find(|s| s.name == "bash").unwrap();
    let properties = bash.parameters.get("properties").unwrap();
    assert!(properties.get("run_in_background").is_none());
    assert!(properties.get("command").is_some());
    let required = bash.parameters.get("required").unwrap().as_array().unwrap();
    assert!(!required.iter().any(|v| v.as_str() == Some("run_in_background")));
}

#[test]
fn features_and_tools_whitelist_narrow_together() {
    let mut assembly = assembly();
    let mut p = preset(Some(vec!["bash", "get_goal"]), None);
    p.features.goal = false;
    apply_preset(&mut assembly, &p);
    assert_eq!(
        tool_names(&assembly),
        vec!["bash"],
        "features 先摘 goal,白名单里的 get_goal 不会让它复活"
    );
}

#[test]
fn tool_schema_restriction_keeps_unknown_names_out() {
    let mut assembly = assembly();
    apply_tool_allowlist(&mut assembly, &vec!["read_file".to_string(), "nope".to_string()]);
    assert_eq!(tool_names(&assembly), vec!["read_file"]);
}

#[test]
fn blocklist_removes_tools_and_sections_that_are_left_without_any() {
    let mut assembly = assembly();
    apply_tool_blocklist(&mut assembly, &vec!["bash".to_string()]);
    assert!(!tool_names(&assembly).contains(&"bash"));
    assert!(!section_names(&assembly).contains(&"tool:bash"));
    assert!(section_names(&assembly).contains(&"tool:goal"));
}

#[test]
fn sections_of_tools_are_known_and_others_are_not() {
    assert_eq!(section_tools("tool:bash"), Some(vec!["bash"]));
    assert_eq!(section_tools("harness:runtime"), None);
}

#[test]
fn assemblies_are_compared_by_what_they_hold() {
    let context = AssembledContext { name: "policy".into(), text: "Mode: read-only.".into() };
    assert_eq!(context, AssembledContext { name: "policy".into(), text: "Mode: read-only.".into() });
}

#[test]
fn preset_id_grammar() {
    assert!(is_valid_preset_id("standard"));
    assert!(is_valid_preset_id("minimal"));
    assert!(is_valid_preset_id("a-1-b"));
    assert!(is_valid_preset_id("1st"));
    assert!(is_valid_preset_id("trail-"));
    assert!(!is_valid_preset_id(""));
    assert!(!is_valid_preset_id("Standard"));
    assert!(!is_valid_preset_id("-lead"));
    assert!(!is_valid_preset_id("has_underscore"));
    assert!(!is_valid_preset_id("has space"));
    assert!(!is_valid_preset_id("../escape"));
    assert!(!is_valid_preset_id("dot.dot"));
}

#[test]
fn builtin_presets_carry_the_default_id() {
    let presets = builtin_presets();
    assert!(presets.iter().any(|preset| preset.id == DEFAULT_PRESET_ID));
    assert!(presets
        .iter()
        .all(|preset| is_valid_preset_id(&preset.id)
            && preset.trust == PresetTrust::Shipped
            && !preset.name.is_empty()));
    let standard = presets
        .iter()
        .find(|preset| preset.id == DEFAULT_PRESET_ID)
        .expect("standard preset is shipped");
    assert!(!standard.restricts_tools());
    assert!(!standard.persona_complete);
    assert!(standard.features.is_default());
    let creator = presets
        .iter()
        .find(|preset| preset.id == "creator")
        .expect("creator preset is shipped");
    assert!(creator.restricts_tools() == false);
    assert!(creator.persona.as_deref().is_some_and(|text| text.contains("ask")));
    assert!(creator.features.is_default());
    let minimal = presets
        .iter()
        .find(|preset| preset.id == "minimal")
        .expect("minimal preset is shipped");
    assert!(minimal.restricts_tools());
    assert!(minimal.persona_complete);
    assert_eq!(minimal.features, PresetFeatures::all_off());
    assert_eq!(minimal.tools.as_deref(), Some(&["bash".to_string()][..]));
}

#[test]
fn excluded_tools_covers_every_closed_feature_family() {
    let mut features = PresetFeatures::all_off();
    features.agents_md = true;
    features.memory = true;
    features.compaction = true;
    let excluded = features.excluded_tools();
    for name in [
        "get_goal", "update_goal", "skill", "spawn_agent", "fork_agent", "send_message",
        "interrupt_agent", "list_agents", "wait_agent", "job_start", "job_list", "job_output",
        "job_kill", "browser", "ask", "exit_plan",
    ] {
        assert!(excluded.contains(&name), "excluded_tools 缺 {name}");
    }
    assert!(!excluded.contains(&"bash"));
    assert!(!excluded.contains(&"read_file"));
}

fn roster() -> PresetRoster {
    PresetRoster { presets: vec![preset(None, None)], default_preset: "test".to_string() }
}

#[test]
fn missing_preset_is_replaced_by_the_usual_one() {
    let roster = roster();
    assert_eq!(preset_for(Some(&roster), Some("gone")).map(|p| p.id), Some("test".to_string()));
    assert_eq!(preset_for(Some(&roster), Some("test")).map(|p| p.id), Some("test".to_string()));
    assert_eq!(preset_for(Some(&roster), None).map(|p| p.id), Some("test".to_string()));
    assert_eq!(preset_for::<PresetRoster>(None, Some("test")), None);
    assert_eq!(preset_features::<PresetRoster>(None, None), PresetFeatures::default());
}

#[test]
fn new_preset_has_everything_on() {
    let spec = PresetSpec::default();
    assert!(spec.features.is_default());
    assert!(spec.tools.is_none());
    assert!(!PresetFeatures::all_off().is_default());
}

#[test]
fn trust_has_a_name() {
    assert_eq!(PresetTrust::Shipped.as_str(), "shipped");
    assert_eq!(PresetTrust::User.as_str(), "user");
}

#[test]
fn switching_a_feature_off_excludes_its_tools_and_no_other() {
    assert!(PresetFeatures::default().excluded_tools().is_empty());
    let mut features = PresetFeatures::default();
    features.memory = false;
    assert!(features.excluded_tools().is_empty());
    features.ask = false;
    assert_eq!(features.excluded_tools(), vec!["ask"]);
    features.goal = false;
    assert_eq!(features.excluded_tools(), vec!["get_goal", "update_goal", "ask"]);
    let all = PresetFeatures::all_off().excluded_tools();
    for (i, name) in all.iter().enumerate() {
        assert!(!all[i + 1..].contains(name));
    }
}
