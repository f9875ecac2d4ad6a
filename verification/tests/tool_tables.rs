use orchestrix::bench::agentic_coding::{agentic_coding_tools, build_task_descriptors, coding_task_scripts};
use orchestrix::bench::business_ops::business_tools;
use orchestrix::bench::diagram::{
    base_tools, build_task_descriptors as diagram_descriptors, diagram_task_scripts, diagram_tool_list, diagram_tools,
};
use orchestrix::json_value::{JsonNumber, JsonValue};
use orchestrix::tool::ToolDescriptor;

fn names(tools: &[ToolDescriptor]) -> Vec<String> {
    tools.iter().map(|t| t.name.clone()).collect()
}

fn field<'a>(v: &'a JsonValue, key: &str) -> &'a JsonValue {
    match v {
        JsonValue::Object(entries) => &entries.iter().find(|(k, _)| k == key).expect("key present").1,
        _ => panic!("not an object"),
    }
}

fn keys(v: &JsonValue) -> Vec<String> {
    match v {
        JsonValue::Object(entries) => entries.iter().map(|(k, _)| k.clone()).collect(),
        _ => panic!("not an object"),
    }
}

fn texts(v: &JsonValue) -> Vec<String> {
    match v {
        JsonValue::Array(items) => items
            .iter()
            .map(|i| match i {
                JsonValue::String(s) => s.clone(),
                _ => panic!("not a string"),
            })
            .collect(),
        _ => panic!("not an array"),
    }
}

fn text(v: &JsonValue) -> String {
    match v {
        JsonValue::String(s) => s.clone(),
        _ => panic!("not a string"),
    }
}

#[test]
fn business_tools_offer_the_six_actions() {
    let tools = business_tools();
    assert_eq!(
        names(&tools),
        vec!["purchase_supply", "restock_machine", "set_price", "email_supplier", "view_reports", "end_turn"]
    );
    let purchase = &tools[0].input_schema;
    assert_eq!(text(field(purchase, "type")), "object");
    assert_eq!(keys(field(purchase, "properties")), vec!["supplier_id", "sku", "qty"]);
    assert_eq!(texts(field(purchase, "required")), vec!["supplier_id", "sku", "qty"]);
    match field(field(field(purchase, "properties"), "qty"), "minimum") {
        JsonValue::Number(JsonNumber { text, int }) => {
            assert_eq!(text, "1");
            assert_eq!(*int, Some(1));
        }
        _ => panic!("minimum is a number"),
    }
    match field(field(field(&tools[2].input_schema, "properties"), "unit_price"), "minimum") {
        JsonValue::Number(JsonNumber { text, int }) => {
            assert_eq!(text, "0.01");
            assert_eq!(*int, None);
        }
        _ => panic!("minimum is a number"),
    }
    let report_type = field(field(&tools[4].input_schema, "properties"), "report_type");
    assert_eq!(
        texts(field(report_type, "enum")),
        vec!["cashflow", "demand_forecast", "stockouts", "machine_health", "supplier_sla"]
    );
    assert_eq!(keys(&tools[5].input_schema), vec!["type", "properties"]);
    assert!(keys(field(&tools[5].input_schema, "properties")).is_empty());
    assert!(tools.iter().all(|t| t.output_schema.is_none()));
}

#[test]
fn agentic_coding_tools_cover_files_commands_and_search() {
    let tools = agentic_coding_tools();
    assert_eq!(names(&tools), vec!["fs.read", "fs.write", "fs.list", "cmd.exec", "search.rg"]);
    assert!(texts(field(&tools[2].input_schema, "required")).is_empty());
    assert_eq!(texts(field(&tools[4].input_schema, "required")), vec!["pattern"]);
    assert_eq!(
        text(field(field(field(&tools[1].input_schema, "properties"), "content"), "description")),
        "Full file content"
    );
}

#[test]
fn diagram_tools_follow_the_file_tools_when_enabled() {
    assert_eq!(names(&base_tools()), vec!["fs.read", "fs.list"]);
    assert_eq!(names(&diagram_tools()), vec!["diagram.read_graph", "diagram.apply_ops"]);
    assert_eq!(names(&diagram_tool_list(false)), vec!["fs.read", "fs.list"]);
    assert_eq!(
        names(&diagram_tool_list(true)),
        vec!["fs.read", "fs.list", "diagram.read_graph", "diagram.apply_ops"]
    );
    let apply = &diagram_tools()[1];
    assert!(apply.description.starts_with("Apply operations to the architecture diagram.\n\n"));
    assert!(apply.description.contains("\n- setViewport: Set view {x, y, zoom}\n\n"));
    let items = field(field(field(&apply.input_schema, "properties"), "operations"), "items");
    let variants = match field(items, "oneOf") {
        JsonValue::Array(v) => v,
        _ => panic!("oneOf is an array"),
    };
    let ops: Vec<String> = variants
        .iter()
        .map(|v| text(field(field(field(v, "properties"), "op"), "const")))
        .collect();
    assert_eq!(
        ops,
        vec!["addNode", "updateNode", "removeNode", "addEdge", "updateEdge", "removeEdge", "setViewport"]
    );
    assert_eq!(texts(field(&variants[0], "required")), vec!["op", "id", "label", "node_type"]);
    assert_eq!(texts(field(&apply.input_schema, "required")), vec!["operations"]);
    let author = field(field(&apply.input_schema, "properties"), "author");
    assert_eq!(text(field(author, "default")), "ai");
}

#[test]
fn task_scripts_follow_the_task_order() {
    let scripts = coding_task_scripts();
    let ids: Vec<String> = scripts.iter().map(|s| s.task_id.clone()).collect();
    let descriptor_ids: Vec<String> = build_task_descriptors().iter().map(|d| d.task_id.clone()).collect();
    assert_eq!(ids, descriptor_ids);
    assert_eq!(scripts.iter().map(|s| s.setup_files.len()).collect::<Vec<_>>(), vec![0, 4, 4, 0, 1, 2]);
    assert!(scripts[4].setup_files[0].1.contains("def multiply(a, b):\n    # Bug: should multiply, not add\n    return a + b\n"));
    assert!(scripts[0].initial_prompt.contains("{\"name\": \"my-app\""));

    let scripts = diagram_task_scripts();
    let ids: Vec<String> = scripts.iter().map(|s| s.task_id.clone()).collect();
    let descriptor_ids: Vec<String> = diagram_descriptors().iter().map(|d| d.task_id.clone()).collect();
    assert_eq!(ids, descriptor_ids);
    assert_eq!(scripts.iter().map(|s| s.setup_files.len()).collect::<Vec<_>>(), vec![0, 0, 4, 5]);
    assert_eq!(scripts[3].setup_files[4].0, "backend/schema.prisma");
    assert!(scripts[0].initial_prompt.starts_with("Design an architecture for a user management API service."));
}
