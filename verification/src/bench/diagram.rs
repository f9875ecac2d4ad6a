//! The architecture diagram benchmark: the same architecture tasks run with
//! and without diagram tools.
//!
//! Running the tasks is the caller's business; this module holds the
//! benchmark's options and the catalogue of its tasks and scenarios.
use vstd::prelude::*;

use crate::bench::llm::{
    api_key_env_keys, api_key_vars, first_non_empty_env, first_set, pair_views, LlmProviderConfig,
    LlmProviderId,
};
use crate::json_value::{entries_view, items_view, json_str, json_view, push_item, JsonValue, JsonView};
use crate::text::{lit, opt_view, views};
use crate::tool::{
    described, described_value, json_strings, names1, names2, names3, names4, names5, no_arguments, no_arguments_value,
    no_names, object_schema, object_schema_value, props1, props2, props3, props4, props5, strs, tool, tool_view,
    tool_views, typed, typed_value, ToolDescriptor, ToolView,
};

use crate::bench::task_script::{file_views, script, script_view, script_views, TaskScript, TaskScriptView};

verus! {

/// The response-token cap used unless configured otherwise.
pub const DEFAULT_MAX_TOKENS: u32 = 4096;

/// The time a task may take, in seconds, unless configured otherwise.
pub const DEFAULT_TIMEOUT_SECONDS: u64 = 180;

#[derive(Debug)]
pub struct DiagramBenchOptions {
    pub providers: Vec<LlmProviderId>,
    pub provider_configs: Vec<LlmProviderConfig>,
    pub max_tokens: u32,
    pub timeout_seconds: u64,
    pub enable_diagram_tools: bool,
}

impl Default for DiagramBenchOptions {
    /// MiniMax with its M2.5 model, diagram tools on.
    fn default() -> (r: DiagramBenchOptions)
        ensures
            r.providers@ == seq![LlmProviderId::MiniMax],
            r.provider_configs@.len() == 1,
            r.provider_configs@[0].provider == LlmProviderId::MiniMax,
            r.provider_configs@[0].api_key is None,
            opt_view(r.provider_configs@[0].model) == Some("MiniMax-M2.5"@),
            r.provider_configs@[0].base_url is None,
            r.provider_configs@[0].max_tokens == Some(DEFAULT_MAX_TOKENS),
            r.max_tokens == DEFAULT_MAX_TOKENS,
            r.timeout_seconds == DEFAULT_TIMEOUT_SECONDS,
            r.enable_diagram_tools,
    {
        let providers = vec![LlmProviderId::MiniMax];
        let provider_configs = vec![LlmProviderConfig {
            provider: LlmProviderId::MiniMax,
            api_key: None,
            model: Some(lit("MiniMax-M2.5")),
            base_url: None,
            max_tokens: Some(DEFAULT_MAX_TOKENS),
        }];
        DiagramBenchOptions {
            providers,
            provider_configs,
            max_tokens: DEFAULT_MAX_TOKENS,
            timeout_seconds: DEFAULT_TIMEOUT_SECONDS,
            enable_diagram_tools: true,
        }
    }
}

#[derive(PartialEq, Eq, Structural, Clone, Copy, Debug)]
pub enum DiagramTaskCategory {
    ArchitectureDesign,
    DiagramExpansion,
    CodeToDiagram,
    ArchitectureAnalysis,
}

/// What a report says about a task.
#[derive(Debug)]
pub struct DiagramTaskDescriptor {
    pub task_id: String,
    pub task_label: String,
    pub description: String,
    pub category: DiagramTaskCategory,
    pub max_turns: usize,
    pub validation_criteria: Vec<String>,
}

pub struct DiagramTaskView {
    pub task_id: Seq<char>,
    pub task_label: Seq<char>,
    pub description: Seq<char>,
    pub category: DiagramTaskCategory,
    pub max_turns: usize,
    pub validation_criteria: Seq<Seq<char>>,
}

impl View for DiagramTaskDescriptor {
    type V = DiagramTaskView;

    open spec fn view(&self) -> DiagramTaskView {
        DiagramTaskView {
            task_id: self.task_id@,
            task_label: self.task_label@,
            description: self.description@,
            category: self.category,
            max_turns: self.max_turns,
            validation_criteria: views(self.validation_criteria@),
        }
    }
}

pub open spec fn diagram_task(
    id: Seq<char>,
    label: Seq<char>,
    description: Seq<char>,
    category: DiagramTaskCategory,
    max_turns: usize,
    validation_criteria: Seq<Seq<char>>,
) -> DiagramTaskView {
    DiagramTaskView { task_id: id, task_label: label, description, category, max_turns, validation_criteria }
}

/// The benchmark's tasks, in the order they run.
pub open spec fn diagram_task_table() -> Seq<DiagramTaskView> {
    seq![
        diagram_task("arch_design_api_service"@, "Architecture Design: API Service"@,
            "Design a complete architecture for a REST API service with database"@,
            DiagramTaskCategory::ArchitectureDesign, 8,
            seq!["has_api_component"@, "has_database_component"@, "has_auth_component"@, "has_cache_component"@, "has_relationships"@]),
        diagram_task("arch_design_microservices"@, "Architecture Design: E-commerce Microservices"@,
            "Design microservices architecture for e-commerce platform"@,
            DiagramTaskCategory::ArchitectureDesign, 10,
            seq!["has_multiple_services"@, "has_service_relationships"@, "has_data_flow"@]),
        diagram_task("diagram_expand_codebase"@, "Diagram Expansion: Add to Existing"@,
            "Given codebase structure, create and expand architecture diagram"@,
            DiagramTaskCategory::DiagramExpansion, 8,
            seq!["has_components_from_codebase"@, "has_relationships"@]),
        diagram_task("code_to_diagram_fullstack"@, "Code to Diagram: Full-stack App"@,
            "Analyze a full-stack application and create architecture diagram"@,
            DiagramTaskCategory::CodeToDiagram, 10,
            seq!["has_frontend_component"@, "has_backend_component"@, "has_database"@, "has_relationships"@]),
    ]
}

fn descriptor(
    id: &str,
    label: &str,
    description: &str,
    category: DiagramTaskCategory,
    max_turns: usize,
    criteria: Vec<String>,
) -> (r: DiagramTaskDescriptor)
    ensures
        r@ == diagram_task(id@, label@, description@, category, max_turns, views(criteria@)),
{
    DiagramTaskDescriptor {
        task_id: lit(id),
        task_label: lit(label),
        description: lit(description),
        category,
        max_turns,
        validation_criteria: criteria,
    }
}

/// The descriptors of the benchmark's tasks, in the order they run.
pub fn build_task_descriptors() -> (r: Vec<DiagramTaskDescriptor>)
    ensures
        r@.len() == diagram_task_table().len(),
        forall|i: int| 0 <= i < r@.len() ==> #[trigger] r@[i]@ == diagram_task_table()[i],
{
    vec![
        descriptor("arch_design_api_service", "Architecture Design: API Service",
            "Design a complete architecture for a REST API service with database",
            DiagramTaskCategory::ArchitectureDesign, 8,
            names5("has_api_component", "has_database_component", "has_auth_component", "has_cache_component", "has_relationships")),
        descriptor("arch_design_microservices", "Architecture Design: E-commerce Microservices",
            "Design microservices architecture for e-commerce platform",
            DiagramTaskCategory::ArchitectureDesign, 10,
            names3("has_multiple_services", "has_service_relationships", "has_data_flow")),
        descriptor("diagram_expand_codebase", "Diagram Expansion: Add to Existing",
            "Given codebase structure, create and expand architecture diagram",
            DiagramTaskCategory::DiagramExpansion, 8,
            names2("has_components_from_codebase", "has_relationships")),
        descriptor("code_to_diagram_fullstack", "Code to Diagram: Full-stack App",
            "Analyze a full-stack application and create architecture diagram",
            DiagramTaskCategory::CodeToDiagram, 10,
            names4("has_frontend_component", "has_backend_component", "has_database", "has_relationships")),
    ]
}

/// The provider's API key from the environment snapshot.
pub fn get_api_key_from_env(env: &Vec<(String, String)>, provider: LlmProviderId) -> (r: Option<String>)
    ensures
        opt_view(r) == first_set(pair_views(env@), api_key_vars(provider)),
{
    let keys = api_key_env_keys(provider);
    first_non_empty_env(env, &keys)
}

#[derive(Debug)]
pub struct DiagramScenarioDescriptor {
    pub scenario_id: String,
    pub name: String,
    pub description: String,
    pub task_count: usize,
    pub estimated_duration_seconds: u64,
}

/// The scenarios the benchmark offers: one run of all tasks, with and
/// without diagram tools.
pub fn available_diagram_scenarios() -> (r: Vec<DiagramScenarioDescriptor>)
    ensures
        r@.len() == 1,
        r@[0].scenario_id@ == "diagram_benchmark"@,
        r@[0].name@ == "Architecture Diagram Benchmark"@,
        r@[0].description@ == "Tests agent performance WITH vs WITHOUT diagram tools on architecture tasks. Evaluates structural correctness, relationship validity, and overall quality."@,
        r@[0].task_count == diagram_task_table().len(),
        r@[0].estimated_duration_seconds == 180,
{
    vec![DiagramScenarioDescriptor {
        scenario_id: lit("diagram_benchmark"),
        name: lit("Architecture Diagram Benchmark"),
        description: lit(
            "Tests agent performance WITH vs WITHOUT diagram tools on architecture tasks. Evaluates structural correctness, relationship validity, and overall quality.",
        ),
        task_count: 4,
        estimated_duration_seconds: 180,
    }]
}

// ---------------------------------------------------------------------------
// The tools offered to the model
// ---------------------------------------------------------------------------

/// `{"const": op}`.
pub open spec fn const_view(op: Seq<char>) -> JsonView {
    JsonView::Object(seq![("const"@, JsonView::Str(op))])
}

/// One form of operation: its properties and the required ones.
pub open spec fn variant(fields: Seq<(Seq<char>, JsonView)>, required: Seq<Seq<char>>) -> JsonView {
    JsonView::Object(seq![("properties"@, JsonView::Object(fields)), ("required"@, JsonView::Array(strs(required)))])
}

pub open spec fn diagram_op_variants() -> Seq<JsonView> {
    seq![
        variant(
            seq![
                ("op"@, const_view("addNode"@)),
                ("id"@, typed("string"@)),
                ("label"@, typed("string"@)),
                ("node_type"@, typed("string"@)),
                ("description"@, typed("string"@)),
            ],
            seq!["op"@, "id"@, "label"@, "node_type"@],
        ),
        variant(seq![("op"@, const_view("updateNode"@)), ("id"@, typed("string"@))], seq!["op"@, "id"@]),
        variant(seq![("op"@, const_view("removeNode"@)), ("id"@, typed("string"@))], seq!["op"@, "id"@]),
        variant(
            seq![
                ("op"@, const_view("addEdge"@)),
                ("id"@, typed("string"@)),
                ("source"@, typed("string"@)),
                ("target"@, typed("string"@)),
            ],
            seq!["op"@, "id"@, "source"@, "target"@],
        ),
        variant(seq![("op"@, const_view("updateEdge"@)), ("id"@, typed("string"@))], seq!["op"@, "id"@]),
        variant(seq![("op"@, const_view("removeEdge"@)), ("id"@, typed("string"@))], seq!["op"@, "id"@]),
        variant(
            seq![
                ("op"@, const_view("setViewport"@)),
                ("x"@, typed("number"@)),
                ("y"@, typed("number"@)),
                ("zoom"@, typed("number"@)),
            ],
            seq!["op"@, "x"@, "y"@, "zoom"@],
        ),
    ]
}

pub open spec fn apply_ops_schema() -> JsonView {
    object_schema(
        seq![
            ("base_version"@, described("integer"@, "Version from last read_graph"@)),
            (
                "author"@,
                JsonView::Object(
                    seq![
                        ("type"@, JsonView::Str("string"@)),
                        ("enum"@, JsonView::Array(strs(seq!["ai"@, "human"@]))),
                        ("default"@, JsonView::Str("ai"@)),
                    ],
                ),
            ),
            (
                "operations"@,
                JsonView::Object(
                    seq![
                        ("type"@, JsonView::Str("array"@)),
                        (
                            "items"@,
                            JsonView::Object(
                                seq![
                                    ("type"@, JsonView::Str("object"@)),
                                    ("oneOf"@, JsonView::Array(diagram_op_variants())),
                                ],
                            ),
                        ),
                    ],
                ),
            ),
        ],
        seq!["operations"@],
    )
}

pub open spec fn apply_ops_description() -> Seq<char> {
    "Apply operations to the architecture diagram.\n\nOperations are validated and applied atomically:\n- addNode: Add component {id, label, node_type, description}\n- updateNode: Modify component {id, label?, description?, node_type?}\n- removeNode: Delete component {id} (removes connected edges)\n- addEdge: Add relationship {id, source, target, label?, edge_type?}\n- updateEdge: Modify relationship {id, label?, edge_type?}\n- removeEdge: Delete relationship {id}\n- setViewport: Set view {x, y, zoom}\n\nAlways read the graph first to get the current version, then apply operations with base_version for conflict detection."@
}

pub open spec fn diagram_tool_table() -> Seq<ToolView> {
    seq![
        tool_view(
            "diagram.read_graph"@,
            "Read the current architecture diagram graph (nodes and edges) from the shared canvas. Use this to ingest the architectural context before planning."@,
            no_arguments(),
        ),
        tool_view("diagram.apply_ops"@, apply_ops_description(), apply_ops_schema()),
    ]
}

pub open spec fn base_tool_table() -> Seq<ToolView> {
    seq![
        tool_view("fs.read"@, "Read the contents of a file."@, object_schema(seq![("path"@, typed("string"@))], seq!["path"@])),
        tool_view("fs.list"@, "List files and directories."@, object_schema(seq![("path"@, typed("string"@))], Seq::empty())),
    ]
}

fn const_value(op: &str) -> (r: JsonValue)
    ensures
        json_view(r) == const_view(op@),
{
    JsonValue::Object(props1("const", json_str(op)))
}

fn variant_value(fields: Vec<(String, JsonValue)>, required: Vec<String>) -> (r: JsonValue)
    ensures
        json_view(r) == variant(entries_view(fields@), views(required@)),
{
    JsonValue::Object(props2("properties", JsonValue::Object(fields), "required", json_strings(&required)))
}

fn op_variants() -> (r: JsonValue)
    ensures
        json_view(r) == JsonView::Array(diagram_op_variants()),
{
    let mut items: Vec<JsonValue> = Vec::new();
    assert(items_view(items@) =~= Seq::<JsonView>::empty());
    push_item(
        &mut items,
        variant_value(
            props5(
                "op",
                const_value("addNode"),
                "id",
                typed_value("string"),
                "label",
                typed_value("string"),
                "node_type",
                typed_value("string"),
                "description",
                typed_value("string"),
            ),
            names4("op", "id", "label", "node_type"),
        ),
    );
    push_item(&mut items, variant_value(props2("op", const_value("updateNode"), "id", typed_value("string")), names2("op", "id")));
    push_item(&mut items, variant_value(props2("op", const_value("removeNode"), "id", typed_value("string")), names2("op", "id")));
    push_item(
        &mut items,
        variant_value(
            props4(
                "op",
                const_value("addEdge"),
                "id",
                typed_value("string"),
                "source",
                typed_value("string"),
                "target",
                typed_value("string"),
            ),
            names4("op", "id", "source", "target"),
        ),
    );
    push_item(&mut items, variant_value(props2("op", const_value("updateEdge"), "id", typed_value("string")), names2("op", "id")));
    push_item(&mut items, variant_value(props2("op", const_value("removeEdge"), "id", typed_value("string")), names2("op", "id")));
    push_item(
        &mut items,
        variant_value(
            props4(
                "op",
                const_value("setViewport"),
                "x",
                typed_value("number"),
                "y",
                typed_value("number"),
                "zoom",
                typed_value("number"),
            ),
            names4("op", "x", "y", "zoom"),
        ),
    );
    assert(items_view(items@) =~~= diagram_op_variants());
    JsonValue::Array(items)
}

/// The diagram tools: reading the graph and applying operations to it.
pub fn diagram_tools() -> (r: Vec<ToolDescriptor>)
    ensures
        tool_views(r@) == diagram_tool_table(),
{
    let read = tool(
        "diagram.read_graph",
        "Read the current architecture diagram graph (nodes and edges) from the shared canvas. Use this to ingest the architectural context before planning.",
        no_arguments_value(),
    );
    let author = JsonValue::Object(
        props3("type", json_str("string"), "enum", json_strings(&names2("ai", "human")), "default", json_str("ai")),
    );
    let operations = JsonValue::Object(
        props2(
            "type",
            json_str("array"),
            "items",
            JsonValue::Object(props2("type", json_str("object"), "oneOf", op_variants())),
        ),
    );
    let schema = object_schema_value(
        props3(
            "base_version",
            described_value("integer", "Version from last read_graph"),
            "author",
            author,
            "operations",
            operations,
        ),
        names1("operations"),
    );
    let apply = tool(
        "diagram.apply_ops",
        "Apply operations to the architecture diagram.\n\nOperations are validated and applied atomically:\n- addNode: Add component {id, label, node_type, description}\n- updateNode: Modify component {id, label?, description?, node_type?}\n- removeNode: Delete component {id} (removes connected edges)\n- addEdge: Add relationship {id, source, target, label?, edge_type?}\n- updateEdge: Modify relationship {id, label?, edge_type?}\n- removeEdge: Delete relationship {id}\n- setViewport: Set view {x, y, zoom}\n\nAlways read the graph first to get the current version, then apply operations with base_version for conflict detection.",
        schema,
    );
    assert(read@ =~~= diagram_tool_table()[0]);
    assert(apply@ =~~= diagram_tool_table()[1]);
    let r = vec![read, apply];
    assert(tool_views(r@) =~= diagram_tool_table());
    r
}

/// The file tools every diagram task has.
pub fn base_tools() -> (r: Vec<ToolDescriptor>)
    ensures
        tool_views(r@) == base_tool_table(),
{
    let read = tool(
        "fs.read",
        "Read the contents of a file.",
        object_schema_value(props1("path", typed_value("string")), names1("path")),
    );
    let list = tool(
        "fs.list",
        "List files and directories.",
        object_schema_value(props1("path", typed_value("string")), no_names()),
    );
    assert(read@ =~~= base_tool_table()[0]);
    assert(list@ =~~= base_tool_table()[1]);
    let r = vec![read, list];
    assert(tool_views(r@) =~= base_tool_table());
    r
}

/// The tools of a diagram run: the file tools, then the diagram tools when
/// they are enabled.
pub fn diagram_tool_list(enable_diagram_tools: bool) -> (r: Vec<ToolDescriptor>)
    ensures
        tool_views(r@) == if enable_diagram_tools {
            base_tool_table() + diagram_tool_table()
        } else {
            base_tool_table()
        },
{
    let mut list = base_tools();
    if enable_diagram_tools {
        let mut more = diagram_tools();
        let ghost a = list@;
        let ghost b = more@;
        list.append(&mut more);
        assert(tool_views(list@) =~= tool_views(a) + tool_views(b));
    }
    list
}

// ---------------------------------------------------------------------------
// What the tasks say
// ---------------------------------------------------------------------------

/// What each task says to the agent and the files its workspace starts
/// with, in the order the tasks run.
pub open spec fn diagram_script_table() -> Seq<TaskScriptView> {
    seq![
        script_view(
            "arch_design_api_service"@,
            "You are an architecture planning agent. Use diagram tools to visualize the system design. Create nodes for each component and edges to show relationships."@,
            "Design an architecture for a user management API service. The system needs:\n- A REST API for CRUD operations on users\n- A PostgreSQL database for persistence\n- An authentication module\n- A caching layer\n\nUse the diagram tools to create a visual architecture showing all components and their relationships."@,
            seq![],
        ),
        script_view(
            "arch_design_microservices"@,
            "You are an architecture planning agent. Use diagram tools to visualize complex systems. Create nodes for each service and edges to show how they communicate."@,
            "Design a microservices architecture for an e-commerce platform with the following services:\n- User Service (authentication, profiles)\n- Product Catalog Service\n- Order Service\n- Payment Service\n- Notification Service\n\nUse the diagram tools to show all services and how they interact (sync via REST, async via message queue)."@,
            seq![],
        ),
        script_view(
            "diagram_expand_codebase"@,
            "You are a codebase analysis agent. First explore the codebase structure, then use diagram tools to create an architecture diagram."@,
            "Analyze the provided codebase structure and create an architecture diagram showing:\n- Main entry points\n- Core modules\n- Data models\n- External dependencies\n\nThe codebase implements a simple task management API."@,
            seq![("src/main.rs"@, "use actix_web::{App, HttpServer, web};\n\n#[actix_web::main]\nasync fn main() -> std::io::Result<()> {\n    HttpServer::new(|| {\n        App::new()\n            .route(\"/tasks\", web::get().to(list_tasks))\n            .route(\"/tasks\", web::post().to(create_task))\n    })\n    .bind(\"127.0.0.1:8080\")?\n    .run()\n    .await\n}\n"@), ("src/handlers.rs"@, "use serde::{Deserialize, Serialize};\nuse crate::models::Task;\n\n#[derive(Serialize, Deserialize)]\npub struct CreateTaskRequest {\n    pub title: String,\n    pub description: Option<String>,\n}\n\npub async fn list_tasks() -> String {\n    \"[]\".to_string()\n}\n\npub async fn create_task(req: web::Json<CreateTaskRequest>) -> String {\n    format!(\"Created: {}\", req.title)\n}\n"@), ("src/models.rs"@, "use serde::{Deserialize, Serialize};\n\n#[derive(Debug, Serialize, Deserialize)]\npub struct Task {\n    pub id: String,\n    pub title: String,\n    pub description: Option<String>,\n    pub status: TaskStatus,\n}\n\n#[derive(Debug, Serialize, Deserialize)]\npub enum TaskStatus {\n    Pending,\n    InProgress,\n    Completed,\n}\n"@), ("src/db.rs"@, "pub struct Database {\n    connection: Pool<PgConnection>,\n}\n\nimpl Database {\n    pub fn new(conn_str: &str) -> Result<Self, Box<dyn std::error::Error>> {\n        Ok(Self {\n            connection: Pool::new(conn_str)?,\n        })\n    }\n}\n"@)],
        ),
        script_view(
            "code_to_diagram_fullstack"@,
            "You are a software architect. Analyze the provided codebase and create a comprehensive architecture diagram using diagram tools."@,
            "Analyze this full-stack application and create an architecture diagram that shows:\n- Frontend components\n- Backend API\n- Database schema\n- External services\n\nThe application is a blog platform with React frontend and Node.js backend."@,
            seq![("frontend/src/App.jsx"@, "import React from 'react';\nimport { BrowserRouter, Routes, Route } from 'react-router-dom';\nimport PostList from './components/PostList';\nimport PostDetail from './components/PostDetail';\n\nexport default function App() {\n  return (\n    <BrowserRouter>\n      <Routes>\n        <Route path=\"/\" element={<PostList />} />\n        <Route path=\"/post/:id\" element={<PostDetail />} />\n      </Routes>\n    </BrowserRouter>\n  );\n}\n"@), ("frontend/src/api.js"@, "const API_BASE = 'http://localhost:3001/api';\n\nexport async function fetchPosts() {\n  const res = await fetch(`${API_BASE}/posts`);\n  return res.json();\n}\n\nexport async function fetchPost(id) {\n  const res = await fetch(`${API_BASE}/posts/${id}`);\n  return res.json();\n}\n\nexport async function createPost(data) {\n  return fetch(`${API_BASE}/posts`, {\n    method: 'POST',\n    headers: { 'Content-Type': 'application/json' },\n    body: JSON.stringify(data),\n  });\n}\n"@), ("backend/server.js"@, "const express = require('express');\nconst app = express();\napp.use(express.json());\n\napp.get('/api/posts', async (req, res) => {\n  const posts = await db.posts.findMany();\n  res.json(posts);\n});\n\napp.get('/api/posts/:id', async (req, res) => {\n  const post = await db.posts.findUnique({ where: { id: req.params.id } });\n  res.json(post);\n});\n\napp.listen(3001);\n"@), ("backend/db.js"@, "const { PrismaClient } = require('@prisma/client');\nconst db = new PrismaClient();\n\nmodule.exports = db;\n"@), ("backend/schema.prisma"@, "model Post {\n  id        String   @id @default(uuid())\n  title     String\n  content   String\n  author    String\n  createdAt DateTime @default(now())\n  updatedAt DateTime @updatedAt\n}\n"@)],
        ),
    ]
}

/// The tasks' scripts (see the table above), in the order the tasks run.
pub fn diagram_task_scripts() -> (r: Vec<TaskScript>)
    ensures
        script_views(r@) == diagram_script_table(),
{
    let mut files: Vec<(String, String)> = Vec::new();
    assert(file_views(files@) =~= seq![]);
    let s0 = script(
        "arch_design_api_service",
        "You are an architecture planning agent. Use diagram tools to visualize the system design. Create nodes for each component and edges to show relationships.",
        "Design an architecture for a user management API service. The system needs:\n- A REST API for CRUD operations on users\n- A PostgreSQL database for persistence\n- An authentication module\n- A caching layer\n\nUse the diagram tools to create a visual architecture showing all components and their relationships.",
        files,
    );
    assert(s0@ =~~= diagram_script_table()[0]);
    let mut files: Vec<(String, String)> = Vec::new();
    assert(file_views(files@) =~= seq![]);
    let s1 = script(
        "arch_design_microservices",
        "You are an architecture planning agent. Use diagram tools to visualize complex systems. Create nodes for each service and edges to show how they communicate.",
        "Design a microservices architecture for an e-commerce platform with the following services:\n- User Service (authentication, profiles)\n- Product Catalog Service\n- Order Service\n- Payment Service\n- Notification Service\n\nUse the diagram tools to show all services and how they interact (sync via REST, async via message queue).",
        files,
    );
    assert(s1@ =~~= diagram_script_table()[1]);
    let mut files: Vec<(String, String)> = Vec::new();
    files.push((lit("src/main.rs"), lit("use actix_web::{App, HttpServer, web};\n\n#[actix_web::main]\nasync fn main() -> std::io::Result<()> {\n    HttpServer::new(|| {\n        App::new()\n            .route(\"/tasks\", web::get().to(list_tasks))\n            .route(\"/tasks\", web::post().to(create_task))\n    })\n    .bind(\"127.0.0.1:8080\")?\n    .run()\n    .await\n}\n")));
    files.push((lit("src/handlers.rs"), lit("use serde::{Deserialize, Serialize};\nuse crate::models::Task;\n\n#[derive(Serialize, Deserialize)]\npub struct CreateTaskRequest {\n    pub title: String,\n    pub description: Option<String>,\n}\n\npub async fn list_tasks() -> String {\n    \"[]\".to_string()\n}\n\npub async fn create_task(req: web::Json<CreateTaskRequest>) -> String {\n    format!(\"Created: {}\", req.title)\n}\n")));
    files.push((lit("src/models.rs"), lit("use serde::{Deserialize, Serialize};\n\n#[derive(Debug, Serialize, Deserialize)]\npub struct Task {\n    pub id: String,\n    pub title: String,\n    pub description: Option<String>,\n    pub status: TaskStatus,\n}\n\n#[derive(Debug, Serialize, Deserialize)]\npub enum TaskStatus {\n    Pending,\n    InProgress,\n    Completed,\n}\n")));
    files.push((lit("src/db.rs"), lit("pub struct Database {\n    connection: Pool<PgConnection>,\n}\n\nimpl Database {\n    pub fn new(conn_str: &str) -> Result<Self, Box<dyn std::error::Error>> {\n        Ok(Self {\n            connection: Pool::new(conn_str)?,\n        })\n    }\n}\n")));
    assert(file_views(files@) =~= seq![("src/main.rs"@, "use actix_web::{App, HttpServer, web};\n\n#[actix_web::main]\nasync fn main() -> std::io::Result<()> {\n    HttpServer::new(|| {\n        App::new()\n            .route(\"/tasks\", web::get().to(list_tasks))\n            .route(\"/tasks\", web::post().to(create_task))\n    })\n    .bind(\"127.0.0.1:8080\")?\n    .run()\n    .await\n}\n"@), ("src/handlers.rs"@, "use serde::{Deserialize, Serialize};\nuse crate::models::Task;\n\n#[derive(Serialize, Deserialize)]\npub struct CreateTaskRequest {\n    pub title: String,\n    pub description: Option<String>,\n}\n\npub async fn list_tasks() -> String {\n    \"[]\".to_string()\n}\n\npub async fn create_task(req: web::Json<CreateTaskRequest>) -> String {\n    format!(\"Created: {}\", req.title)\n}\n"@), ("src/models.rs"@, "use serde::{Deserialize, Serialize};\n\n#[derive(Debug, Serialize, Deserialize)]\npub struct Task {\n    pub id: String,\n    pub title: String,\n    pub description: Option<String>,\n    pub status: TaskStatus,\n}\n\n#[derive(Debug, Serialize, Deserialize)]\npub enum TaskStatus {\n    Pending,\n    InProgress,\n    Completed,\n}\n"@), ("src/db.rs"@, "pub struct Database {\n    connection: Pool<PgConnection>,\n}\n\nimpl Database {\n    pub fn new(conn_str: &str) -> Result<Self, Box<dyn std::error::Error>> {\n        Ok(Self {\n            connection: Pool::new(conn_str)?,\n        })\n    }\n}\n"@)]);
    let s2 = script(
        "diagram_expand_codebase",
        "You are a codebase analysis agent. First explore the codebase structure, then use diagram tools to create an architecture diagram.",
        "Analyze the provided codebase structure and create an architecture diagram showing:\n- Main entry points\n- Core modules\n- Data models\n- External dependencies\n\nThe codebase implements a simple task management API.",
        files,
    );
    assert(s2@ =~~= diagram_script_table()[2]);
    let mut files: Vec<(String, String)> = Vec::new();
    files.push((lit("frontend/src/App.jsx"), lit("import React from 'react';\nimport { BrowserRouter, Routes, Route } from 'react-router-dom';\nimport PostList from './components/PostList';\nimport PostDetail from './components/PostDetail';\n\nexport default function App() {\n  return (\n    <BrowserRouter>\n      <Routes>\n        <Route path=\"/\" element={<PostList />} />\n        <Route path=\"/post/:id\" element={<PostDetail />} />\n      </Routes>\n    </BrowserRouter>\n  );\n}\n")));
    files.push((lit("frontend/src/api.js"), lit("const API_BASE = 'http://localhost:3001/api';\n\nexport async function fetchPosts() {\n  const res = await fetch(`${API_BASE}/posts`);\n  return res.json();\n}\n\nexport async function fetchPost(id) {\n  const res = await fetch(`${API_BASE}/posts/${id}`);\n  return res.json();\n}\n\nexport async function createPost(data) {\n  return fetch(`${API_BASE}/posts`, {\n    method: 'POST',\n    headers: { 'Content-Type': 'application/json' },\n    body: JSON.stringify(data),\n  });\n}\n")));
    files.push((lit("backend/server.js"), lit("const express = require('express');\nconst app = express();\napp.use(express.json());\n\napp.get('/api/posts', async (req, res) => {\n  const posts = await db.posts.findMany();\n  res.json(posts);\n});\n\napp.get('/api/posts/:id', async (req, res) => {\n  const post = await db.posts.findUnique({ where: { id: req.params.id } });\n  res.json(post);\n});\n\napp.listen(3001);\n")));
    files.push((lit("backend/db.js"), lit("const { PrismaClient } = require('@prisma/client');\nconst db = new PrismaClient();\n\nmodule.exports = db;\n")));
    files.push((lit("backend/schema.prisma"), lit("model Post {\n  id        String   @id @default(uuid())\n  title     String\n  content   String\n  author    String\n  createdAt DateTime @default(now())\n  updatedAt DateTime @updatedAt\n}\n")));
    assert(file_views(files@) =~= seq![("frontend/src/App.jsx"@, "import React from 'react';\nimport { BrowserRouter, Routes, Route } from 'react-router-dom';\nimport PostList from './components/PostList';\nimport PostDetail from './components/PostDetail';\n\nexport default function App() {\n  return (\n    <BrowserRouter>\n      <Routes>\n        <Route path=\"/\" element={<PostList />} />\n        <Route path=\"/post/:id\" element={<PostDetail />} />\n      </Routes>\n    </BrowserRouter>\n  );\n}\n"@), ("frontend/src/api.js"@, "const API_BASE = 'http://localhost:3001/api';\n\nexport async function fetchPosts() {\n  const res = await fetch(`${API_BASE}/posts`);\n  return res.json();\n}\n\nexport async function fetchPost(id) {\n  const res = await fetch(`${API_BASE}/posts/${id}`);\n  return res.json();\n}\n\nexport async function createPost(data) {\n  return fetch(`${API_BASE}/posts`, {\n    method: 'POST',\n    headers: { 'Content-Type': 'application/json' },\n    body: JSON.stringify(data),\n  });\n}\n"@), ("backend/server.js"@, "const express = require('express');\nconst app = express();\napp.use(express.json());\n\napp.get('/api/posts', async (req, res) => {\n  const posts = await db.posts.findMany();\n  res.json(posts);\n});\n\napp.get('/api/posts/:id', async (req, res) => {\n  const post = await db.posts.findUnique({ where: { id: req.params.id } });\n  res.json(post);\n});\n\napp.listen(3001);\n"@), ("backend/db.js"@, "const { PrismaClient } = require('@prisma/client');\nconst db = new PrismaClient();\n\nmodule.exports = db;\n"@), ("backend/schema.prisma"@, "model Post {\n  id        String   @id @default(uuid())\n  title     String\n  content   String\n  author    String\n  createdAt DateTime @default(now())\n  updatedAt DateTime @updatedAt\n}\n"@)]);
    let s3 = script(
        "code_to_diagram_fullstack",
        "You are a software architect. Analyze the provided codebase and create a comprehensive architecture diagram using diagram tools.",
        "Analyze this full-stack application and create an architecture diagram that shows:\n- Frontend components\n- Backend API\n- Database schema\n- External services\n\nThe application is a blog platform with React frontend and Node.js backend.",
        files,
    );
    assert(s3@ =~~= diagram_script_table()[3]);
    let r = vec![s0, s1, s2, s3];
    assert(script_views(r@) =~= diagram_script_table());
    r
}

} // verus!
