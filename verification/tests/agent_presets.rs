use orchestrix::text::is_float_text;
use orchestrix::agent_preset_commands::{agent_preset_context, new_agent_preset, search_agent_presets};
use orchestrix::agent_presets::{
    agent_preset_file_text, extract_agent_preset_id_from_prompt, get_agent_preset, ignore_temperature, load_agent_file,
    parse_agent_file, parse_frontmatter, parse_model_override, scan_agent_presets, title_case,
    AgentMode, AgentPreset, ToolMap, ToolPermission,
};

fn chars(s: &str) -> Vec<char> {
    s.chars().collect()
}

fn preset(id: &str, name: &str, mode: AgentMode) -> AgentPreset {
    AgentPreset {
        id: id.to_string(),
        name: name.to_string(),
        description: "Test".to_string(),
        mode,
        model: None,
        temperature: None,
        steps: None,
        tools: None,
        permission: None,
        prompt: "Test".to_string(),
        file_path: "/test.md".to_string(),
        source: "test".to_string(),
        tags: vec![],
        enabled: true,
        validation_issues: vec![],
    }
}

#[test]
fn mod_test_parse_frontmatter_basic() {
    let input = r#"---
name: Code Inspector
description: Inspects code for quality
mode: subagent
model: minimax/MiniMax-M2.1
temperature: 0.1
tools:
  write: false
  edit: false
---

You are a code inspector. Focus on quality."#;

    let (fm, body) = parse_frontmatter(input);
    assert!(fm.contains("name: Code Inspector"));
    assert!(body.contains("You are a code inspector"));
}

#[test]
fn mod_test_parse_frontmatter_no_frontmatter() {
    let input = "# Just markdown\n\nNo frontmatter.";
    let (fm, body) = parse_frontmatter(input);
    assert!(fm.is_empty());
    assert_eq!(body, input);
}

#[test]
fn mod_test_title_case() {
    assert_eq!(title_case("code-inspector"), "Code Inspector");
    assert_eq!(title_case("security_auditor"), "Security Auditor");
    assert_eq!(title_case("quick thinker"), "Quick Thinker");
}

#[test]
fn test_tool_allowed_defaults() {
    let primary = preset("test", "Test", AgentMode::Primary);
    let subagent = AgentPreset {
        mode: AgentMode::Subagent,
        ..primary.copy()
    };

    assert!(primary.tool_allowed("fs.write"));
    assert!(primary.tool_allowed("cmd.exec"));

    assert!(!subagent.tool_allowed("fs.write"));
    assert!(!subagent.tool_allowed("cmd.exec"));
}

#[test]
fn test_tool_allowed_explicit() {
    let mut tools = ToolMap::new();
    tools.insert(&chars("write"), ToolPermission::Bool(true));
    tools.insert(&chars("bash"), ToolPermission::Bool(false));

    let mut p = preset("test", "Test", AgentMode::Subagent);
    p.tools = Some(tools);

    assert!(p.tool_allowed("write"));
    assert!(!p.tool_allowed("bash"));
}

#[test]
fn test_extract_agent_preset_id_from_prompt() {
    assert_eq!(
        extract_agent_preset_id_from_prompt("Please use @agent:code-inspector for this"),
        Some("code-inspector".to_string())
    );
    assert_eq!(extract_agent_preset_id_from_prompt("No agent mention"), None);
}

#[test]
fn test_parse_model_override() {
    let (provider, model) = parse_model_override("kimi/kimi-k2.5");
    assert_eq!(provider.as_deref(), Some("kimi"));
    assert_eq!(model, "kimi-k2.5");

    let (provider, model) = parse_model_override("MiniMax-M2.1");
    assert_eq!(provider, None);
    assert_eq!(model, "MiniMax-M2.1");
}

#[test]
fn agent_file_defaults_and_issues() {
    let raw = "---\ndescription: Inspects code\nsteps: 5000\n---\n\nYou check code.";
    let (p, issues) = parse_agent_file("code-checker", raw, "/w/.agents/agents/code-checker.md".to_string(), "workspace");
    assert_eq!(p.id, "code-checker");
    assert_eq!(p.name, "Code Checker");
    assert_eq!(p.description, "Inspects code");
    assert_eq!(p.mode, AgentMode::Subagent);
    assert_eq!(p.steps, None);
    assert_eq!(p.prompt, "You check code.");
    assert_eq!(p.source, "workspace");
    assert!(p.enabled);
    assert_eq!(
        issues,
        vec![
            "mode not specified, defaulting to 'subagent'".to_string(),
            "steps 5000 seems excessive, capping at 1000".to_string(),
        ]
    );
}

#[test]
fn agent_file_reports_frontmatter_problems_in_order() {
    let raw = "---\nmode: boss\nsteps: many\n---\nbody";
    let loaded = load_agent_file("x", raw, "/x.md".to_string(), "global");
    assert_eq!(
        loaded.validation_issues,
        vec![
            "unknown mode 'boss', expected primary|subagent".to_string(),
            "invalid steps 'many', expected integer".to_string(),
            "mode not specified, defaulting to 'subagent'".to_string(),
        ]
    );
}

#[test]
fn agent_file_tools_permissions_and_tags() {
    let raw = "---\nname: Builder\nmode: primary\nsteps: 12\ntags:\n  - rust\n  - build\ntools:\n  bash: deny\n  write: allow\npermission:\n  edit: false\n---\nBuild things.";
    let (p, issues) = parse_agent_file("builder", raw, "/b.md".to_string(), "workspace");
    assert!(issues.is_empty());
    assert_eq!(p.mode, AgentMode::Primary);
    assert_eq!(p.steps, Some(12));
    assert_eq!(p.tags, vec!["rust".to_string(), "build".to_string()]);
    assert!(!p.tool_allowed("bash"));
    assert!(p.tool_allowed("write"));
    assert!(!p.tool_allowed("edit"));
    assert_eq!(p.constraints_summary(), "max 12 steps | no bash");
}

#[test]
fn constraints_summary_default() {
    let p = preset("a", "A", AgentMode::Primary);
    assert_eq!(p.constraints_summary(), "default constraints");
    let s = preset("b", "B", AgentMode::Subagent);
    assert_eq!(s.constraints_summary(), "subagent mode");
}

#[test]
fn scan_keeps_first_by_id_and_sorts_by_name() {
    let found = vec![
        preset("b", "zeta", AgentMode::Primary),
        preset("a", "Alpha", AgentMode::Primary),
        preset("b", "beta", AgentMode::Subagent),
    ];
    let listed = scan_agent_presets(&found);
    let ids: Vec<&str> = listed.iter().map(|p| p.id.as_str()).collect();
    assert_eq!(ids, vec!["a", "b"]);
    assert_eq!(listed[1].name, "zeta");
}

#[test]
fn get_agent_preset_finds_first_match() {
    let found = vec![preset("a", "One", AgentMode::Primary), preset("a", "Two", AgentMode::Primary)];
    assert_eq!(get_agent_preset(&found, "a").map(|p| p.name), Some("One".to_string()));
    assert!(get_agent_preset(&found, "missing").is_none());
}

#[test]
fn agent_file_text_round_trips_main_fields() {
    let mut p = preset("writer", "Writer", AgentMode::Primary);
    p.description = "Writes docs".to_string();
    p.steps = Some(7);
    p.tags = vec!["docs".to_string()];
    let text = agent_preset_file_text(&p);
    assert_eq!(
        text,
        "---\nname: Writer\ndescription: Writes docs\nmode: primary\nsteps: 7\ntags:\n  - docs\n---\n\nTest"
    );
    let (back, issues) = parse_agent_file("writer", &text, "/w.md".to_string(), "workspace");
    assert!(issues.is_empty());
    assert_eq!(back.name, "Writer");
    assert_eq!(back.description, "Writes docs");
    assert_eq!(back.mode, AgentMode::Primary);
    assert_eq!(back.steps, Some(7));
    assert_eq!(back.tags, vec!["docs".to_string()]);
    assert_eq!(back.prompt, "Test");
}

fn form(id: &str, mode: &str) -> orchestrix::agent_preset_commands::NewAgentPreset {
    orchestrix::agent_preset_commands::NewAgentPreset {
        id: id.to_string(),
        name: "Helper".to_string(),
        description: "Helps with docs".to_string(),
        mode: mode.to_string(),
        model: None,
        temperature: Some("0.2".to_string()),
        steps: Some(8),
        prompt: "Be brief.".to_string(),
        tags: Some(vec!["Docs".to_string()]),
        tools: Some(vec![("bash".to_string(), Some(false)), ("read".to_string(), None), ("bash".to_string(), Some(true))]),
    }
}

#[test]
fn create_agent_preset_validates_the_form() {
    assert_eq!(
        new_agent_preset(form("bad id", "primary")).unwrap_err(),
        "invalid agent ID 'bad id': must be alphanumeric with hyphens/underscores only"
    );
    assert_eq!(
        new_agent_preset(form("", "primary")).unwrap_err(),
        "invalid agent ID '': must be alphanumeric with hyphens/underscores only"
    );
    assert_eq!(
        new_agent_preset(form("ok", "Primary")).unwrap_err(),
        "invalid mode 'Primary': must be 'primary' or 'subagent'"
    );
    let p = new_agent_preset(form("doc-helper_1", "subagent")).unwrap();
    assert_eq!(p.source, "workspace");
    assert!(p.enabled);
    assert_eq!(p.file_path, "");
    assert_eq!(p.tags, vec!["Docs".to_string()]);
    assert_eq!(
        agent_preset_context(&p),
        "## Agent: Helper\n\nHelps with docs\n\nMode: Subagent\nConstraints: max 8 steps | subagent mode\n\nBe brief."
    );
    let all = vec![p];
    assert_eq!(search_agent_presets(&all, "  ").len(), 1);
    assert_eq!(search_agent_presets(&all, "DOCS").len(), 1);
    assert_eq!(search_agent_presets(&all, "nothing").len(), 0);
}

#[test]
fn float_text_follows_the_f32_grammar() {
    for ok in ["0.1", "2", "+1.", ".5", "-3e4", "1E-2", "inf", "-Infinity", "NaN", "1e+10"] {
        assert!(is_float_text(&chars(ok)), "{ok}");
    }
    for bad in ["", ".", "abc", "1.2.3", "1e", "e5", " 1", "1 ", "--1", "1_0", "0x10", "+"] {
        assert!(!is_float_text(&chars(bad)), "{bad}");
    }
}

#[test]
fn invalid_temperature_is_reported_and_dropped() {
    let raw = "---\nmode: primary\ntemperature: warm\n---\nBody";
    let loaded = load_agent_file("x", raw, "/x.md".to_string(), "workspace");
    assert_eq!(loaded.temperature, None);
    assert_eq!(loaded.validation_issues, vec!["invalid temperature 'warm', expected float".to_string()]);
    let raw = "---\nmode: primary\ntemperature: 0.7\n---\nBody";
    let loaded = load_agent_file("x", raw, "/x.md".to_string(), "workspace");
    assert_eq!(loaded.temperature.as_deref(), Some("0.7"));
    assert!(loaded.validation_issues.is_empty());
}

#[test]
fn out_of_range_temperature_comes_before_the_steps_issue() {
    let raw = "---\ntemperature: 3.50\nsteps: 5000\n---\nBody";
    let mut loaded = load_agent_file("x", raw, "/x.md".to_string(), "workspace");
    ignore_temperature(&mut loaded, raw, "3.5");
    assert_eq!(loaded.temperature, None);
    assert_eq!(
        loaded.validation_issues,
        vec![
            "mode not specified, defaulting to 'subagent'".to_string(),
            "temperature 3.5 out of range [0.0, 2.0], ignoring".to_string(),
            "steps 5000 seems excessive, capping at 1000".to_string(),
        ]
    );
}
