use orchestrix::mcp_servers::{
    mcp_server_from_input, server_view, CreateMcpServerInput, FilterMode, GlobalApprovalPolicy, McpAuthInput,
    McpTransportType, ToolApprovalPolicyInput, ToolFilterInput, ToolOverrideInput,
};

#[test]
fn entries_need_a_name_and_an_id() {
    let err = mcp_server_from_input(CreateMcpServerInput::new("   ".to_string())).unwrap_err();
    assert_eq!(err, "name is required");
    let err = mcp_server_from_input(CreateMcpServerInput::new(" !!! ".to_string())).unwrap_err();
    assert_eq!(err, "could not derive valid id");
    let mut input = CreateMcpServerInput::new("  My Server ".to_string());
    input.id = Some("--".to_string());
    let c = mcp_server_from_input(input).unwrap();
    assert_eq!(c.id, "my-server");
    assert_eq!(c.name, "My Server");
    let mut input = CreateMcpServerInput::new("Files".to_string());
    input.id = Some(" Local FS ".to_string());
    assert_eq!(mcp_server_from_input(input).unwrap().id, "local-fs");
}

#[test]
fn entries_keep_their_settings() {
    let mut input = CreateMcpServerInput::new("Remote".to_string());
    input.transport = McpTransportType::Sse;
    input.url = Some("https://mcp.example.invalid/sse".to_string());
    input.auth = Some(McpAuthInput {
        oauth_token: None,
        headers: vec![("X-Team".to_string(), "core".to_string())],
        api_key: Some("k".to_string()),
        api_key_header: None,
    });
    input.tool_filter = Some(ToolFilterInput {
        mode: "exclude".to_string(),
        tools: vec!["delete_file".to_string()],
        allow_all_read_only: true,
        block_all_modifying: false,
    });
    input.approval_policy = Some(ToolApprovalPolicyInput {
        global_policy: "sometimes".to_string(),
        tool_overrides: vec![
            ToolOverrideInput { pattern: "read_*".to_string(), requires_approval: false, is_glob: true },
            ToolOverrideInput { pattern: "write".to_string(), requires_approval: true, is_glob: false },
        ],
        read_only_never_requires_approval: true,
        modifying_always_requires_approval: false,
    });
    let c = mcp_server_from_input(input).unwrap();
    assert_eq!(c.id, "remote");
    assert_eq!(c.transport, McpTransportType::Sse);
    assert!(c.enabled);
    assert_eq!(c.timeout_secs, 30);
    assert_eq!(c.pool_size, 5);
    assert_eq!(c.health_check_interval_secs, 60);
    assert_eq!(c.auth.as_ref().unwrap().headers[0].1, "core");
    let f = c.tool_filter.as_ref().unwrap();
    assert_eq!(f.mode, FilterMode::Exclude);
    assert_eq!(f.tools, vec!["delete_file".to_string()]);
    let p = c.approval_policy.as_ref().unwrap();
    assert_eq!(p.global_policy, GlobalApprovalPolicy::ByTool);
    assert_eq!(p.tool_overrides.len(), 2);
    assert_eq!(p.tool_overrides[0].pattern, "read_*");
    assert!(p.tool_overrides[1].requires_approval);

    let v = server_view(c, 3, None);
    assert_eq!(v.transport, "sse");
    assert_eq!(v.tool_count, 3);
    assert_eq!(v.url.as_deref(), Some("https://mcp.example.invalid/sse"));
    assert!(v.health.is_none());
}

#[test]
fn filter_and_policy_words_default_sensibly() {
    let mut input = CreateMcpServerInput::new("x".to_string());
    input.tool_filter = Some(ToolFilterInput {
        mode: "whatever".to_string(),
        tools: vec![],
        allow_all_read_only: false,
        block_all_modifying: true,
    });
    input.approval_policy = Some(ToolApprovalPolicyInput {
        global_policy: "never".to_string(),
        tool_overrides: vec![],
        read_only_never_requires_approval: false,
        modifying_always_requires_approval: true,
    });
    let c = mcp_server_from_input(input).unwrap();
    assert_eq!(c.tool_filter.unwrap().mode, FilterMode::Include);
    assert_eq!(c.approval_policy.unwrap().global_policy, GlobalApprovalPolicy::Never);
}
