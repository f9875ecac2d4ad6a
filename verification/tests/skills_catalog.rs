use orchestrix::skills::{NewCustomSkill, SkillCatalog};

fn new_skill(id: Option<&str>, title: &str, description: &str, install: &str, url: &str) -> NewCustomSkill {
    NewCustomSkill {
        id: id.map(|s| s.to_string()),
        title: title.to_string(),
        description: description.to_string(),
        install_command: install.to_string(),
        url: url.to_string(),
        source: None,
        tags: None,
    }
}

#[test]
fn test_skills_list_all_returns_builtins() {
    let catalog = SkillCatalog::new();
    let all = catalog.list_all_skills();
    assert!(all.len() >= 2, "should have at least 2 builtin skills, got {}", all.len());
    let ids: Vec<&str> = all.iter().map(|s| s.id.as_str()).collect();
    assert!(ids.contains(&"vercel-react-best-practices"), "missing vercel-react-best-practices");
    assert!(ids.contains(&"find-skills"), "missing find-skills");
    for skill in &all {
        if !skill.is_custom {
            assert!(
                ["builtin", "vercel"].contains(&skill.source.as_str()),
                "builtin skill {} has unexpected source: {}",
                skill.id,
                skill.source
            );
        }
    }
}

#[test]
fn test_skills_list_is_sorted_alphabetically() {
    let catalog = SkillCatalog::new();
    let all = catalog.list_all_skills();
    let titles: Vec<String> = all.iter().map(|s| s.title.to_ascii_lowercase()).collect();
    let mut sorted = titles.clone();
    sorted.sort();
    assert_eq!(titles, sorted, "skills should be sorted alphabetically by title");
}

#[test]
fn test_skills_list_deduplicates_by_id() {
    let mut catalog = SkillCatalog::new();
    let _added = catalog
        .add_custom_skill(new_skill(
            Some("find-skills"),
            "Custom Find Skills Override",
            "Overridden",
            "echo override",
            "https://example.com",
        ))
        .expect("add_custom_skill failed");
    let all = catalog.list_all_skills();
    let entries: Vec<_> = all.iter().filter(|s| s.id == "find-skills").collect();
    assert_eq!(entries.len(), 1, "should have exactly 1 find-skills entry after dedup");
}

#[test]
fn test_skills_add_custom_skill_success() {
    let mut catalog = SkillCatalog::new();
    let skill = catalog
        .add_custom_skill(NewCustomSkill {
            id: None,
            title: "My Test Skill".to_string(),
            description: "A test skill for unit tests".to_string(),
            install_command: "echo hello".to_string(),
            url: "https://example.com/test".to_string(),
            source: Some("test-source".to_string()),
            tags: Some(vec!["test".to_string(), "unit-test".to_string()]),
        })
        .expect("add_custom_skill failed");
    assert_eq!(skill.id, "my-test-skill", "id should be derived from title");
    assert_eq!(skill.title, "My Test Skill");
    assert_eq!(skill.source, "test-source");
    assert!(skill.is_custom);
    assert_eq!(skill.tags, vec!["test", "unit-test"]);
    let all = catalog.list_all_skills();
    assert!(all.iter().any(|s| s.id == "my-test-skill"), "custom skill should be in list");
}

#[test]
fn test_skills_add_custom_skill_with_explicit_id() {
    let mut catalog = SkillCatalog::new();
    let skill = catalog
        .add_custom_skill(new_skill(
            Some("custom-explicit-id"),
            "Explicit ID Skill",
            "Has an explicit id",
            "echo test",
            "https://example.com",
        ))
        .expect("add failed");
    assert_eq!(skill.id, "custom-explicit-id");
    assert_eq!(skill.source, "custom");
}

#[test]
fn test_skills_add_custom_skill_validation() {
    let mut catalog = SkillCatalog::new();
    let result = catalog.add_custom_skill(new_skill(None, "", "desc", "echo", "https://example.com"));
    assert!(result.is_err(), "empty title should fail");
    assert!(result.unwrap_err().contains("title"), "error should mention title");
    let result = catalog.add_custom_skill(new_skill(None, "Valid Title", "desc", "  ", "https://example.com"));
    assert!(result.is_err(), "empty install_command should fail");
    let result = catalog.add_custom_skill(new_skill(None, "Valid Title", "desc", "echo test", ""));
    assert!(result.is_err(), "empty url should fail");
}

#[test]
fn test_skills_remove_custom_skill() {
    let mut catalog = SkillCatalog::new();
    catalog
        .add_custom_skill(new_skill(Some("removable-skill"), "Removable", "To be removed", "echo", "https://example.com"))
        .unwrap();
    let all = catalog.list_all_skills();
    assert!(all.iter().any(|s| s.id == "removable-skill"));
    let removed = catalog.remove_custom_skill("removable-skill").unwrap();
    assert!(removed, "should return true when skill was removed");
    let all = catalog.list_all_skills();
    assert!(!all.iter().any(|s| s.id == "removable-skill"), "skill should be gone");
    let removed_again = catalog.remove_custom_skill("removable-skill").unwrap();
    assert!(!removed_again, "should return false for already-removed skill");
}

#[test]
fn test_skills_remove_nonexistent_returns_false() {
    let mut catalog = SkillCatalog::new();
    let removed = catalog.remove_custom_skill("does-not-exist").unwrap();
    assert!(!removed);
    let removed = catalog.remove_custom_skill("").unwrap();
    assert!(!removed);
}

#[test]
fn test_skills_search_exact_match() {
    let catalog = SkillCatalog::new();
    let results = catalog.search_skills("find-skills", None, 25);
    assert!(!results.is_empty(), "should find 'find-skills'");
    assert!(results.iter().any(|s| s.id == "find-skills"));
}

#[test]
fn test_skills_search_partial_match() {
    let catalog = SkillCatalog::new();
    let results = catalog.search_skills("react", None, 25);
    assert!(!results.is_empty(), "should find skills matching 'react'");
    assert!(results.iter().any(|s| s.id == "vercel-react-best-practices"));
}

#[test]
fn test_skills_search_tokenized_match() {
    let catalog = SkillCatalog::new();
    let results = catalog.search_skills("find skills", None, 25);
    assert!(!results.is_empty(), "tokenized search for 'find skills' should return results");
}

#[test]
fn test_skills_search_by_source_filter() {
    let catalog = SkillCatalog::new();
    let vercel_only = catalog.search_skills("", Some("vercel"), 25);
    for skill in &vercel_only {
        assert_eq!(
            skill.source.to_ascii_lowercase(),
            "vercel",
            "source filter should only return vercel skills, got {}",
            skill.source
        );
    }
    let builtin_only = catalog.search_skills("", Some("builtin"), 25);
    for skill in &builtin_only {
        assert_eq!(skill.source.to_ascii_lowercase(), "builtin");
    }
}

#[test]
fn test_skills_search_no_results_returns_fallback() {
    let catalog = SkillCatalog::new();
    let results = catalog.search_skills("xyznonexistentthing123", None, 25);
    assert!(!results.is_empty(), "search with no match should return fallback entries");
    let ids: Vec<&str> = results.iter().map(|s| s.id.as_str()).collect();
    assert!(ids.contains(&"find-skills"), "fallback should include find-skills, got: {:?}", ids);
}

#[test]
fn test_skills_search_respects_limit() {
    let catalog = SkillCatalog::new();
    let results = catalog.search_skills("", None, 1);
    assert_eq!(results.len(), 1, "limit=1 should return exactly 1 result");
}

#[test]
fn test_skills_import_context7_valid() {
    let mut catalog = SkillCatalog::new();
    let skill = catalog.import_context7_skill("/tauri-apps/tauri", None).unwrap();
    assert!(skill.id.starts_with("context7-"), "id should start with 'context7-': {}", skill.id);
    assert!(skill.is_custom);
    assert_eq!(skill.source, "context7");
    assert!(skill.url.contains("context7.com"));
    assert!(skill.title.contains("tauri-apps"));
    let all = catalog.list_all_skills();
    assert!(all.iter().any(|s| s.id == skill.id));
}

#[test]
fn test_skills_import_context7_with_custom_title() {
    let mut catalog = SkillCatalog::new();
    let skill = catalog.import_context7_skill("/facebook/react", Some("React Docs")).unwrap();
    assert_eq!(skill.title, "React Docs");
}

#[test]
fn test_skills_import_context7_invalid_format() {
    let mut catalog = SkillCatalog::new();
    let result = catalog.import_context7_skill("tauri-apps/tauri", None);
    assert!(result.is_err());
    let result = catalog.import_context7_skill("/onlyone", None);
    assert!(result.is_err());
}

#[test]
fn test_skills_import_vercel_valid() {
    let mut catalog = SkillCatalog::new();
    let skill = catalog.import_vercel_skill("next-auth-setup").unwrap();
    assert_eq!(skill.id, "next-auth-setup");
    assert!(skill.is_custom);
    assert_eq!(skill.source, "vercel");
    assert!(skill.install_command.contains("next-auth-setup"));
    assert!(skill.url.contains("skills.sh"));
    assert_eq!(skill.title, "Vercel: Next Auth Setup");
}

#[test]
fn test_skills_import_vercel_with_at_prefix() {
    let mut catalog = SkillCatalog::new();
    let skill = catalog.import_vercel_skill("vercel-labs/agent-skills@my-skill").unwrap();
    assert_eq!(skill.id, "my-skill");
}

#[test]
fn test_skills_import_vercel_empty_fails() {
    let mut catalog = SkillCatalog::new();
    let result = catalog.import_vercel_skill("");
    assert!(result.is_err());
    let result = catalog.import_vercel_skill("  ");
    assert!(result.is_err());
}

#[test]
fn test_skills_upsert_replaces_existing() {
    let mut catalog = SkillCatalog::new();
    catalog
        .add_custom_skill(new_skill(
            Some("upsert-test"),
            "Original Title",
            "Original",
            "echo original",
            "https://example.com/original",
        ))
        .unwrap();
    catalog
        .add_custom_skill(new_skill(
            Some("upsert-test"),
            "Updated Title",
            "Updated",
            "echo updated",
            "https://example.com/updated",
        ))
        .unwrap();
    let all = catalog.list_all_skills();
    let found: Vec<_> = all.iter().filter(|s| s.id == "upsert-test").collect();
    assert_eq!(found.len(), 1, "should have exactly 1 entry after upsert");
    assert_eq!(found[0].title, "Updated Title");
}
