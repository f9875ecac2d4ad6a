use orchestrix::bench::diagram_state::{
    evaluate_diagram_state, evaluate_text_output, hyphen_title_vec, DiagramOp, DiagramState,
};

fn op(kind: &str, id: &str) -> DiagramOp {
    DiagramOp {
        op: Some(kind.to_string()),
        id: if id.is_empty() { None } else { Some(id.to_string()) },
        node_type: None,
        label: None,
        description: None,
        source: None,
        target: None,
    }
}

fn edge(id: &str, source: &str, target: &str) -> DiagramOp {
    let mut o = op("addEdge", id);
    o.source = Some(source.to_string());
    o.target = Some(target.to_string());
    o
}

fn strings(v: &[&str]) -> Vec<String> {
    v.iter().map(|s| s.to_string()).collect()
}

#[test]
fn diagram_batch_applies_in_order() {
    let mut state = DiagramState::new();
    let mut named = op("addNode", "db-store");
    named.label = Some(String::new());
    named.node_type = Some("database".to_string());
    let ops = vec![
        op("addNode", "api"),
        named,
        edge("e1", "api", "db-store"),
        op("addNode", ""),
        op("setViewport", ""),
    ];
    let r = state.apply_ops(&ops, 0);
    assert!(r.success);
    assert_eq!(
        r.applied_ops,
        strings(&["addNode:api", "addNode:db-store", "addEdge:e1", "setViewport:"])
    );
    assert!(r.conflicts.is_empty());
    assert!(r.errors.is_empty());
    assert_eq!(r.new_version, 4);
    assert_eq!(state.version, 4);
    assert_eq!(state.nodes.len(), 2);
    assert_eq!(state.nodes[0].label, "api");
    assert_eq!(state.nodes[0].kind, "concept");
    assert_eq!(state.nodes[1].label, "Db Store");
    assert_eq!(state.nodes[1].kind, "database");
    assert_eq!(state.edges.len(), 1);
}

#[test]
fn diagram_batch_with_refusals_changes_nothing() {
    let mut state = DiagramState::new();
    let r = state.apply_ops(&vec![op("addNode", "api")], 0);
    assert!(r.success);
    let ops = vec![
        op("addNode", "web"),
        edge("e2", "api", "missing"),
        edge("e3", "", "api"),
        op("addNode", "api"),
        op("zoom", "x"),
    ];
    let r = state.apply_ops(&ops, 1);
    assert!(!r.success);
    assert!(r.applied_ops.is_empty());
    assert_eq!(
        r.conflicts,
        strings(&[
            "addEdge:e2 - Target node 'missing' not found",
            "addEdge:e3 - Edge source and target required",
            "addNode:api - Node 'api' already exists",
            "zoom:x - Unknown operation: zoom",
        ])
    );
    assert_eq!(r.new_version, 1);
    assert_eq!(state.version, 1);
    assert_eq!(state.nodes.len(), 1);
    assert_eq!(state.nodes[0].id, "api");
    assert!(state.edges.is_empty());
}

#[test]
fn diagram_remove_node_drops_its_edges() {
    let mut state = DiagramState::new();
    let ops = vec![
        op("addNode", "a"),
        op("addNode", "b"),
        op("addNode", "c"),
        edge("ab", "a", "b"),
        edge("bc", "b", "c"),
        edge("ca", "c", "a"),
    ];
    let r = state.apply_ops(&ops, 0);
    assert!(r.success);
    assert_eq!(r.new_version, 6);
    let r = state.apply_ops(&vec![op("removeNode", "b")], 6);
    assert!(r.success);
    assert_eq!(r.new_version, 7);
    assert_eq!(state.nodes.len(), 2);
    assert_eq!(state.edges.len(), 1);
    assert_eq!(state.edges[0].id, "ca");
    let r = state.apply_ops(&vec![op("removeEdge", "ca")], 7);
    assert_eq!(r.applied_ops, strings(&["removeEdge:ca"]));
    assert!(state.edges.is_empty());
}

#[test]
fn diagram_source_must_exist() {
    let mut state = DiagramState::new();
    let r = state.apply_ops(&vec![op("addNode", "a"), edge("x", "ghost", "a")], 0);
    assert!(!r.success);
    assert_eq!(r.conflicts, strings(&["addEdge:x - Source node 'ghost' not found"]));
    assert!(r.applied_ops.is_empty());
    assert_eq!(r.new_version, 0);
    assert!(state.nodes.is_empty());
}

#[test]
fn diagram_missing_target_refuses_whole_batch() {
    let mut state = DiagramState::new();
    let mut a = op("addNode", "a");
    a.label = Some("A".to_string());
    a.node_type = Some("service".to_string());
    let r = state.apply_ops(&vec![a, edge("e1", "a", "missing")], 0);
    assert!(!r.success);
    assert_eq!(r.conflicts.len(), 1);
    assert!(r.applied_ops.is_empty());
    assert!(state.nodes.is_empty());
    assert!(state.edges.is_empty());
    assert_eq!(state.version, 0);
}

#[test]
fn diagram_stale_version_is_refused() {
    let mut state = DiagramState::new();
    state.apply_ops(&vec![op("addNode", "a")], 0);
    let r = state.apply_ops(&vec![op("addNode", "b")], 0);
    assert!(!r.success);
    assert!(r.applied_ops.is_empty());
    assert_eq!(
        r.conflicts,
        strings(&["Version conflict: base_version 0 does not match current version 1"])
    );
    assert_eq!(r.new_version, 1);
    assert_eq!(state.version, 1);
    assert_eq!(state.nodes.len(), 1);
}

#[test]
fn diagram_update_node_changes_given_fields() {
    let mut state = DiagramState::new();
    let mut a = op("addNode", "a");
    a.label = Some("A".to_string());
    a.node_type = Some("service".to_string());
    a.description = Some("first".to_string());
    state.apply_ops(&vec![a], 0);
    let mut u = op("updateNode", "a");
    u.label = Some("B".to_string());
    let r = state.apply_ops(&vec![u], 1);
    assert!(r.success);
    assert_eq!(r.applied_ops, strings(&["updateNode:a"]));
    assert_eq!(state.version, 2);
    assert_eq!(state.nodes.len(), 1);
    assert_eq!(state.nodes[0].label, "B");
    assert_eq!(state.nodes[0].kind, "service");
    assert_eq!(state.nodes[0].description, "first");
    let r = state.apply_ops(&vec![op("updateNode", "zz")], 2);
    assert_eq!(r.conflicts, strings(&["updateNode:zz - Node 'zz' not found"]));
    assert_eq!(state.version, 2);
}

#[test]
fn diagram_update_edge_changes_label() {
    let mut state = DiagramState::new();
    let ops = vec![op("addNode", "a"), op("addNode", "b"), edge("ab", "a", "b")];
    state.apply_ops(&ops, 0);
    let mut u = op("updateEdge", "ab");
    u.label = Some("calls".to_string());
    let r = state.apply_ops(&vec![u], 3);
    assert!(r.success);
    assert_eq!(state.edges[0].label, "calls");
    assert_eq!(state.edges[0].source, "a");
    assert_eq!(state.version, 4);
    let r = state.apply_ops(&vec![op("updateEdge", "nope")], 4);
    assert_eq!(r.conflicts, strings(&["updateEdge:nope - Edge 'nope' not found"]));
}

#[test]
fn hyphen_title_keeps_empty_pieces() {
    let t: String = hyphen_title_vec(&"user-auth--svc".chars().collect()).into_iter().collect();
    assert_eq!(t, "User Auth  Svc");
}

#[test]
fn diagram_quality_counts_nodes_and_edges() {
    let mut state = DiagramState::new();
    let ops = vec![
        op("addNode", "a"),
        op("addNode", "b"),
        op("addNode", "c"),
        op("addNode", "d"),
        edge("ab", "a", "b"),
        edge("bc", "b", "c"),
        edge("cd", "c", "d"),
    ];
    state.apply_ops(&ops, 0);
    let criteria = strings(&[
        "has_api_component",
        "has_database_component",
        "has_auth_component",
        "has_cache_component",
        "has_multiple_services",
        "has_service_relationships",
        "has_data_flow",
    ]);
    let q = evaluate_diagram_state(&state, &criteria);
    assert_eq!(q.structural_quarters, 4);
    assert_eq!(q.relationship_quarters, 2);
    let empty = DiagramState::new();
    let q = evaluate_diagram_state(&empty, &criteria);
    assert_eq!(q.structural_quarters, 0);
    assert_eq!(q.relationship_quarters, 0);
}

#[test]
fn text_output_flags() {
    let criteria = strings(&["has_cache_component", "has_data_flow"]);
    let q = evaluate_text_output(&strings(&["The API uses REDIS", ""]), &criteria);
    assert!(q.has_components);
    assert!(!q.has_relationships);
    assert!(q.has_description);
    let q = evaluate_text_output(&strings(&["web --> db"]), &criteria);
    assert!(!q.has_components);
    assert!(q.has_relationships);
    let q = evaluate_text_output(&strings(&[""]), &criteria);
    assert!(!q.has_description);
}
