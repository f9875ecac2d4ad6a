use orchestrix::workspace_skills::{
    build_skills_context, parse_frontmatter, scan_workspace_skills, skill_from_file, title_case,
    WorkspaceSkill,
};

fn skill(id: &str, name: &str, enabled: bool) -> WorkspaceSkill {
    WorkspaceSkill {
        id: id.to_string(),
        name: name.to_string(),
        description: "A test skill".to_string(),
        content: "# Test\nDo things.".to_string(),
        skill_dir: "/tmp/test".to_string(),
        skill_file: "/tmp/test/SKILL.md".to_string(),
        source: "workspace".to_string(),
        files: vec![],
        tags: vec![],
        enabled,
    }
}

#[test]
fn workspace_skills_test_parse_frontmatter_basic() {
    let input = r#"---
name: my-skill
description: Does cool things
tags: rust, ai, tools
---

# My Skill

This is the body."#;

    let (fm, body) = parse_frontmatter(input);
    assert_eq!(fm.name.as_deref(), Some("my-skill"));
    assert_eq!(fm.description.as_deref(), Some("Does cool things"));
    assert_eq!(fm.tags, vec!["rust", "ai", "tools"]);
    assert!(body.starts_with("# My Skill"));
}

#[test]
fn workspace_skills_test_parse_frontmatter_no_frontmatter() {
    let input = "# Just markdown\n\nNo frontmatter here.";
    let (fm, body) = parse_frontmatter(input);
    assert!(fm.name.is_none());
    assert_eq!(body, input);
}

#[test]
fn workspace_skills_test_title_case() {
    assert_eq!(title_case("hello-world"), "Hello World");
    assert_eq!(title_case("frontend-design"), "Frontend Design");
    assert_eq!(title_case("my_cool_skill"), "My Cool Skill");
}

#[test]
fn test_build_skills_context_empty() {
    let skills: Vec<WorkspaceSkill> = vec![];
    assert_eq!(build_skills_context(&skills), "");
}

#[test]
fn test_build_skills_context_disabled() {
    let skills = vec![WorkspaceSkill {
        id: "test".to_string(),
        name: "Test".to_string(),
        description: "A test skill".to_string(),
        content: "# Test\nDo things.".to_string(),
        skill_dir: "/tmp/test".to_string(),
        skill_file: "/tmp/test/SKILL.md".to_string(),
        source: "workspace".to_string(),
        files: vec![],
        tags: vec![],
        enabled: false,
    }];
    assert_eq!(build_skills_context(&skills), "");
}

#[test]
fn build_skills_context_renders_enabled_skills_only() {
    let skills = vec![skill("a", "Alpha", true), skill("b", "Beta", false)];
    let out = build_skills_context(&skills);
    assert_eq!(
        out,
        "\n\n# Active Skills\n\nThe following skills are loaded and their instructions should be followed when relevant:\n\n---\n## Skill: Alpha\n\n_A test skill_\n\n\n# Test\nDo things.\n"
    );
}

#[test]
fn frontmatter_yaml_list_tags_and_key_case() {
    let input = "---\nName: listed\ntags:\n  - one\n  - two\ndescription:\n  - first\n  - second\n---\nbody";
    let (fm, body) = parse_frontmatter(input);
    assert_eq!(fm.name.as_deref(), Some("listed"));
    assert_eq!(fm.tags, vec!["one", "two"]);
    assert_eq!(fm.description.as_deref(), Some("first, second"));
    assert_eq!(body, "body");
}

#[test]
fn skill_from_file_falls_back_to_directory_name() {
    let s = skill_from_file(
        "frontend-design",
        "no frontmatter",
        "/w/.agents/skills/frontend-design".to_string(),
        "/w/.agents/skills/frontend-design/SKILL.md".to_string(),
        "workspace",
        vec!["SKILL.md".to_string()],
    );
    assert_eq!(s.id, "frontend-design");
    assert_eq!(s.name, "Frontend Design");
    assert_eq!(s.description, "");
    assert_eq!(s.content, "no frontmatter");
    assert!(s.enabled);
}

#[test]
fn scan_prefers_workspace_skill_and_sorts_by_name() {
    let mut global = skill("a", "zed", true);
    global.source = "global".to_string();
    let found = vec![skill("b", "beta", true), skill("a", "Alpha", true), global];
    let listed = scan_workspace_skills(&found);
    let ids: Vec<&str> = listed.iter().map(|s| s.id.as_str()).collect();
    assert_eq!(ids, vec!["a", "b"]);
    assert_eq!(listed[0].source, "workspace");
}

#[test]
fn skills_context_ignores_disabled_skills() {
    let mixed = vec![skill("a", "Alpha", true), skill("b", "Beta", false), skill("c", "Gamma", true)];
    let enabled = vec![skill("a", "Alpha", true), skill("c", "Gamma", true)];
    let context = build_skills_context(&mixed);
    assert_eq!(context, build_skills_context(&enabled));
    let alpha = context.find("## Skill: Alpha").unwrap();
    let gamma = context.find("## Skill: Gamma").unwrap();
    assert!(alpha < gamma);
    assert!(!context.contains("## Skill: Beta"));
    assert_eq!(build_skills_context(&vec![skill("b", "Beta", false)]), "");
}
