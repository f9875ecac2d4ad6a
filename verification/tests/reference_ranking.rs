use orchestrix::reference_ranking::{
    listing_base, rank_and_cut, ranking_is_safe, search_workspace_references,
    WorkspaceReferenceCandidate,
};
use orchestrix::workspace_search::fuzzy_would_fail;
use orchestrix::workspace_skills::WorkspaceSkill;

fn skill(id: &str, name: &str, description: &str, enabled: bool) -> WorkspaceSkill {
    WorkspaceSkill {
        id: id.to_string(),
        name: name.to_string(),
        description: description.to_string(),
        content: String::new(),
        skill_dir: String::new(),
        skill_file: String::new(),
        source: "workspace".to_string(),
        files: vec![],
        tags: vec![],
        enabled,
    }
}

fn entries(v: &[(&str, bool)]) -> Vec<(String, bool)> {
    v.iter().map(|(p, d)| (p.to_string(), *d)).collect()
}

fn values(v: &[WorkspaceReferenceCandidate]) -> Vec<String> {
    v.iter().map(|c| c.value.clone()).collect()
}

#[test]
fn ranking_scores_paths_after_the_last_slash() {
    let listing = entries(&[("src/main.rs", false), ("src/map", true), ("src/lib.rs", false)]);
    let r = search_workspace_references("src/ma", None, &vec![], &vec![], &listing);
    assert_eq!(values(&r), vec!["src/map", "src/main.rs"]);
    assert_eq!(r[0].kind, "directory");
    assert_eq!(r[0].description, "workspace directory");
    assert_eq!(r[0].group, "src");
    assert_eq!(r[1].kind, "file");
    assert_eq!(r[1].display, "src/main.rs");
}

#[test]
fn ranking_lists_everything_for_an_empty_query() {
    let listing = entries(&[("src/a.rs", false), ("README.md", false), ("src", true), ("docs", true)]);
    let skills = vec![skill("deploy", "Deploy", "  ", true), skill("off", "Off", "", false)];
    let r = search_workspace_references("", None, &vec![], &skills, &listing);
    assert_eq!(values(&r), vec!["src", "docs", "README.md", "skill:deploy", "src/a.rs"]);
    assert_eq!(r[0].group, "(root)");
    assert_eq!(r[3].display, "Deploy (deploy)");
    assert_eq!(r[3].description, "workspace skill");
    assert_eq!(r[3].group, "Skills");
    let r = search_workspace_references("", Some(3), &vec![], &skills, &listing);
    assert_eq!(values(&r), vec!["src", "docs", "README.md"]);
    let r = search_workspace_references("", Some(0), &vec![], &skills, &listing);
    assert_eq!(values(&r), vec!["src"]);
}

#[test]
fn ranking_drops_adjacent_repeats() {
    let listing = entries(&[("a", false), ("a", false), ("a", true)]);
    let r = search_workspace_references("", Some(100), &vec![], &vec![], &listing);
    assert_eq!(values(&r), vec!["a", "a"]);
    assert_eq!(r[0].kind, "directory");
    assert_eq!(r[1].kind, "file");
}

#[test]
fn ranking_matches_skills_by_name() {
    let skills = vec![skill("deploy", "Deploy Helper", "Ships builds", true), skill("lint", "Lint", "", true)];
    let r = search_workspace_references("ship", None, &vec![], &skills, &vec![]);
    assert_eq!(values(&r), vec!["skill:deploy"]);
    assert_eq!(r[0].description, "Ships builds");
}

#[test]
fn ranking_is_stable_for_equal_keys() {
    let mk = |d: &str| WorkspaceReferenceCandidate {
        kind: "agent".to_string(),
        value: "agent:x".to_string(),
        display: d.to_string(),
        description: String::new(),
        group: "Agents".to_string(),
    };
    let ranked = vec![(5, mk("first")), (5, mk("second"))];
    let r = rank_and_cut(&ranked, Some(10));
    assert_eq!(r.len(), 1);
    assert_eq!(r[0].display, "first");
    let ranked = vec![(5, mk("first")), (7, mk("best")), (5, mk("second"))];
    let r = rank_and_cut(&ranked, Some(10));
    assert_eq!(r.len(), 1);
    assert_eq!(r[0].display, "best");
}

#[test]
fn scoring_inside_a_multibyte_character_is_refused() {
    // After matching "é" at byte 0 the next lookup would start at byte 1,
    // inside the character.
    assert!(fuzzy_would_fail("éa", "é x"));
    assert!(!fuzzy_would_fail("ea", "é x"));
    assert!(!fuzzy_would_fail("", "é x"));
    assert!(!fuzzy_would_fail("É", "é"));
    let listing = entries(&[("é", false)]);
    assert!(!ranking_is_safe("éa", &vec![], &vec![], &listing));
    assert!(ranking_is_safe("src/", &vec![], &vec![], &listing));
    let listing = entries(&[("src/main.rs", false)]);
    assert!(ranking_is_safe("src/ma", &vec![], &vec![], &listing));
}

#[test]
fn listing_base_is_the_directory_before_the_last_slash() {
    assert_eq!(listing_base("  src\\bench\\ma "), "src/bench");
    assert_eq!(listing_base("main"), ".");
    assert_eq!(listing_base("./docs/"), ".");
    assert_eq!(listing_base(""), ".");
}
