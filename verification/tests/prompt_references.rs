use orchestrix::path_scope::is_within_dir;
use orchestrix::prompt_references::{expand_prompt_references, extract_mentions, PathReference};
use orchestrix::workspace_skills::{check_skill_file_path, WorkspaceSkill};

fn reference(token: &str, resolved: &str, section: &str) -> PathReference {
    PathReference { token: token.to_string(), resolved: resolved.to_string(), section: section.to_string() }
}

fn skill(id: &str, name: &str) -> WorkspaceSkill {
    WorkspaceSkill {
        id: id.to_string(),
        name: name.to_string(),
        description: String::new(),
        content: "Body".to_string(),
        skill_dir: "/w/.agents/skills/x".to_string(),
        skill_file: "/w/.agents/skills/x/SKILL.md".to_string(),
        source: "workspace".to_string(),
        files: vec![],
        tags: vec![],
        enabled: true,
    }
}

#[test]
fn within_dir_compares_whole_pieces() {
    assert!(is_within_dir("/work/app/src/main.rs", "/work/app"));
    assert!(is_within_dir("/work/app", "/work/app"));
    assert!(is_within_dir("/work/app/", "/work/app"));
    assert!(!is_within_dir("/work/application", "/work/app"));
    assert!(!is_within_dir("/work/secret.txt", "/work/app"));
    assert!(!is_within_dir("work/app/x", "/work/app"));
    assert!(is_within_dir("/anything", "/"));
}

#[test]
fn mentions_are_distinct_and_trimmed() {
    assert_eq!(extract_mentions("see @src/main.rs, then (@docs/) and @src/main.rs."), vec!["src/main.rs", "docs/"]);
    assert!(extract_mentions("mail me@example.com").is_empty());
}

#[test]
fn path_outside_workspace_adds_nothing() {
    let prompt = "see @../secret.txt";
    let paths = vec![reference("../secret.txt", "/home/user/secret.txt", "Reference `../secret.txt` (file):\nTOP SECRET")];
    assert_eq!(expand_prompt_references(prompt, &vec![], "/home/user/work", &paths), prompt);
}

#[test]
fn path_inside_workspace_is_appended() {
    let prompt = "read @notes.md";
    let paths = vec![reference("notes.md", "/home/user/work/notes.md", "NOTES")];
    assert_eq!(
        expand_prompt_references(prompt, &vec![], "/home/user/work", &paths),
        "read @notes.md\n\n# Workspace References\n\nNOTES\n\nUse these references as authoritative workspace context when relevant."
    );
}

#[test]
fn skill_mentions_resolve_without_paths() {
    let prompt = "use @skill:Deploy and @nothing";
    let out = expand_prompt_references(prompt, &vec![skill("deploy", "Deploy")], "/w", &vec![]);
    assert_eq!(
        out,
        "use @skill:Deploy and @nothing\n\n# Workspace References\n\nReference `@skill:deploy` (workspace skill):\n\n## Deploy\n\nBody\n\nUse these references as authoritative workspace context when relevant."
    );
    assert_eq!(expand_prompt_references("no mentions", &vec![], "/w", &vec![]), "no mentions");
}

#[test]
fn skill_file_must_stay_in_its_directory() {
    assert_eq!(check_skill_file_path("/s/deploy", "/s/deploy/scripts/run.sh"), Ok(()));
    assert_eq!(
        check_skill_file_path("/s/deploy", "/s/other/SKILL.md"),
        Err("path traversal not allowed".to_string())
    );
    assert_eq!(
        check_skill_file_path("/s/deploy", "/s/deploy-old/x"),
        Err("path traversal not allowed".to_string())
    );
}
