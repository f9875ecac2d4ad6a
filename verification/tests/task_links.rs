use orchestrix::task_links::{link_check, link_targets, parent_check, requested_parent, CreateTaskOptions};

#[test]
fn blank_parents_name_none() {
    let opts = Some(CreateTaskOptions { parent_task_id: Some("  ".to_string()), reference_task_ids: None });
    assert_eq!(requested_parent(&opts), None);
    let opts = Some(CreateTaskOptions { parent_task_id: Some("t-1".to_string()), reference_task_ids: None });
    assert_eq!(requested_parent(&opts).as_deref(), Some("t-1"));
    assert_eq!(requested_parent(&None), None);
    assert!(parent_check(&Some("t-1".to_string()), true).is_ok());
    assert_eq!(parent_check(&Some("t-9".to_string()), false).unwrap_err(), "parent task not found: t-9");
    assert!(parent_check(&None, false).is_ok());
}

#[test]
fn new_tasks_link_to_parent_and_existing_references() {
    let refs = vec!["a".to_string(), "new".to_string(), "b".to_string(), "c".to_string()];
    let exists = vec![true, true, false, true];
    assert_eq!(
        link_targets("new", &Some("p".to_string()), &refs, &exists),
        vec!["p".to_string(), "a".to_string(), "c".to_string()]
    );
    assert!(link_targets("new", &None, &vec![], &vec![]).is_empty());
}

#[test]
fn links_need_two_existing_tasks() {
    assert_eq!(link_check("a", "a", true, true).unwrap_err(), "cannot link a conversation to itself");
    assert_eq!(link_check("a", "b", false, true).unwrap_err(), "task not found: a");
    assert_eq!(link_check("a", "b", true, false).unwrap_err(), "task not found: b");
    assert!(link_check("a", "b", true, true).is_ok());
}
