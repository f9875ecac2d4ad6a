//! The agentic coding benchmark: practical coding tasks that a model solves
//! with real tool calls in a scratch workspace.
//!
//! Running the tasks is the caller's business; this module holds the
//! benchmark's options and the catalogue of its tasks and scenarios.
use vstd::prelude::*;

use crate::bench::llm::{
    api_key_env_keys, api_key_vars, first_non_empty_env, first_set, pair_views, LlmProviderConfig,
    LlmProviderId,
};
use crate::text::{lit, opt_view, views};
use crate::tool::{
    described, described_value, names1, names2, no_names, object_schema, object_schema_value, props1, props2, tool,
    tool_view, tool_views, ToolDescriptor, ToolView,
};

use crate::bench::task_script::{file_views, script, script_view, script_views, TaskScript, TaskScriptView};

verus! {

/// The response-token cap used unless configured otherwise.
pub const DEFAULT_MAX_TOKENS: u32 = 4096;

/// The time a task may take, in seconds, unless configured otherwise.
pub const DEFAULT_TIMEOUT_SECONDS: u64 = 120;

#[derive(Debug)]
pub struct AgenticCodingBenchOptions {
    pub providers: Vec<LlmProviderId>,
    pub provider_configs: Vec<LlmProviderConfig>,
    pub max_tokens: u32,
    pub timeout_seconds: u64,
    /// The tasks to run; all of them when empty.
    pub task_filter: Vec<String>,
    /// Where scratch workspaces are created; the system's temporary
    /// directory when absent.
    pub scratch_root: Option<String>,
    /// Whether the workspaces of failed tasks are kept for inspection.
    pub retain_failed_workspaces: bool,
}

impl Default for AgenticCodingBenchOptions {
    /// MiniMax with its M2.1 model.
    fn default() -> (r: AgenticCodingBenchOptions)
        ensures
            r.providers@ == seq![LlmProviderId::MiniMax],
            r.provider_configs@.len() == 1,
            r.provider_configs@[0].provider == LlmProviderId::MiniMax,
            r.provider_configs@[0].api_key is None,
            opt_view(r.provider_configs@[0].model) == Some("MiniMax-M2.1"@),
            r.provider_configs@[0].base_url is None,
            r.provider_configs@[0].max_tokens == Some(DEFAULT_MAX_TOKENS),
            r.max_tokens == DEFAULT_MAX_TOKENS,
            r.timeout_seconds == DEFAULT_TIMEOUT_SECONDS,
            r.task_filter@.len() == 0,
            r.scratch_root is None,
            !r.retain_failed_workspaces,
    {
        let providers = vec![LlmProviderId::MiniMax];
        let provider_configs = vec![LlmProviderConfig {
            provider: LlmProviderId::MiniMax,
            api_key: None,
            model: Some(lit("MiniMax-M2.1")),
            base_url: None,
            max_tokens: Some(DEFAULT_MAX_TOKENS),
        }];
        AgenticCodingBenchOptions {
            providers,
            provider_configs,
            max_tokens: DEFAULT_MAX_TOKENS,
            timeout_seconds: DEFAULT_TIMEOUT_SECONDS,
            task_filter: Vec::new(),
            scratch_root: None,
            retain_failed_workspaces: false,
        }
    }
}

#[derive(PartialEq, Eq, Structural, Clone, Copy, Debug)]
pub enum AgenticCodingCategory {
    FileOperations,
    CommandExecution,
    CodeGeneration,
    MultiStepTask,
}

/// What a report says about a task.
#[derive(Debug)]
pub struct AgenticCodingTaskDescriptor {
    pub task_id: String,
    pub task_label: String,
    pub description: String,
    pub category: AgenticCodingCategory,
    pub max_turns: usize,
    pub expected_files: Vec<String>,
    pub validation_commands: Vec<String>,
}

pub struct CodingTaskView {
    pub task_id: Seq<char>,
    pub task_label: Seq<char>,
    pub description: Seq<char>,
    pub category: AgenticCodingCategory,
    pub max_turns: usize,
    pub expected_files: Seq<Seq<char>>,
    pub validation_commands: Seq<Seq<char>>,
}

impl View for AgenticCodingTaskDescriptor {
    type V = CodingTaskView;

    open spec fn view(&self) -> CodingTaskView {
        CodingTaskView {
            task_id: self.task_id@,
            task_label: self.task_label@,
            description: self.description@,
            category: self.category,
            max_turns: self.max_turns,
            expected_files: views(self.expected_files@),
            validation_commands: views(self.validation_commands@),
        }
    }
}

pub open spec fn coding_task(
    id: Seq<char>,
    label: Seq<char>,
    description: Seq<char>,
    category: AgenticCodingCategory,
    max_turns: usize,
    expected_files: Seq<Seq<char>>,
    validation_commands: Seq<Seq<char>>,
) -> CodingTaskView {
    CodingTaskView { task_id: id, task_label: label, description, category, max_turns, expected_files, validation_commands }
}

/// The benchmark's tasks, in the order they run.
pub open spec fn coding_task_table() -> Seq<CodingTaskView> {
    seq![
        coding_task("file_create_read"@, "File Create & Read"@,
            "Create a JSON config file and verify it can be read back"@,
            AgenticCodingCategory::FileOperations, 5, seq!["config.json"@], seq![]),
        coding_task("list_and_analyze"@, "Directory Analysis"@,
            "List files and generate a summary report"@,
            AgenticCodingCategory::FileOperations, 6, seq!["file_inventory.txt"@], seq![]),
        coding_task("command_count_files"@, "Command: Count Files"@,
            "Use shell commands to count and report file statistics"@,
            AgenticCodingCategory::CommandExecution, 5, seq!["count_report.txt"@], seq![]),
        coding_task("code_generate_function"@, "Generate Python Function"@,
            "Generate a utility function with proper error handling"@,
            AgenticCodingCategory::CodeGeneration, 6, seq!["math_utils.py"@], seq!["python math_utils.py"@]),
        coding_task("multistep_refactor"@, "Multi-step Refactor"@,
            "Read, modify, and validate code changes"@,
            AgenticCodingCategory::MultiStepTask, 10, seq!["calculator.py"@], seq!["python calculator.py"@]),
        coding_task("search_and_update"@, "Search & Update"@,
            "Find patterns in files and update them"@,
            AgenticCodingCategory::CodeGeneration, 8, seq!["todo_report.md"@], seq![]),
    ]
}

fn descriptor(
    id: &str,
    label: &str,
    description: &str,
    category: AgenticCodingCategory,
    max_turns: usize,
    expected_files: Vec<String>,
    validation_commands: Vec<String>,
) -> (r: AgenticCodingTaskDescriptor)
    ensures
        r@ == coding_task(id@, label@, description@, category, max_turns, views(expected_files@), views(validation_commands@)),
{
    AgenticCodingTaskDescriptor {
        task_id: lit(id),
        task_label: lit(label),
        description: lit(description),
        category,
        max_turns,
        expected_files,
        validation_commands,
    }
}

/// The descriptors of the benchmark's tasks, in the order they run.
pub fn build_task_descriptors() -> (r: Vec<AgenticCodingTaskDescriptor>)
    ensures
        r@.len() == coding_task_table().len(),
        forall|i: int| 0 <= i < r@.len() ==> #[trigger] r@[i]@ == coding_task_table()[i],
{
    let r = vec![
        descriptor("file_create_read", "File Create & Read",
            "Create a JSON config file and verify it can be read back",
            AgenticCodingCategory::FileOperations, 5, names1("config.json"), no_names()),
        descriptor("list_and_analyze", "Directory Analysis",
            "List files and generate a summary report",
            AgenticCodingCategory::FileOperations, 6, names1("file_inventory.txt"), no_names()),
        descriptor("command_count_files", "Command: Count Files",
            "Use shell commands to count and report file statistics",
            AgenticCodingCategory::CommandExecution, 5, names1("count_report.txt"), no_names()),
        descriptor("code_generate_function", "Generate Python Function",
            "Generate a utility function with proper error handling",
            AgenticCodingCategory::CodeGeneration, 6, names1("math_utils.py"), names1("python math_utils.py")),
        descriptor("multistep_refactor", "Multi-step Refactor",
            "Read, modify, and validate code changes",
            AgenticCodingCategory::MultiStepTask, 10, names1("calculator.py"), names1("python calculator.py")),
        descriptor("search_and_update", "Search & Update",
            "Find patterns in files and update them",
            AgenticCodingCategory::CodeGeneration, 8, names1("todo_report.md"), no_names()),
    ];
    assert(coding_task_table()[0].validation_commands =~= Seq::<Seq<char>>::empty());
    r
}

/// The provider's API key from the environment snapshot.
pub fn get_api_key_from_env(env: &Vec<(String, String)>, provider: LlmProviderId) -> (r: Option<String>)
    ensures
        opt_view(r) == first_set(pair_views(env@), api_key_vars(provider)),
{
    let keys = api_key_env_keys(provider);
    first_non_empty_env(env, &keys)
}

#[derive(Debug)]
pub struct AgenticCodingScenarioDescriptor {
    pub scenario_id: String,
    pub name: String,
    pub description: String,
    pub task_count: usize,
    pub estimated_duration_seconds: u64,
}

/// The scenarios the benchmark offers: one quick run of all tasks.
pub fn available_agentic_coding_scenarios() -> (r: Vec<AgenticCodingScenarioDescriptor>)
    ensures
        r@.len() == 1,
        r@[0].scenario_id@ == "quick_agentic_coding"@,
        r@[0].name@ == "Quick Agentic Coding"@,
        r@[0].description@ == "6 tasks testing file operations, command execution, code generation, and multi-step workflows. Defaults to MiniMax M2.1. Estimated 1-2 minutes."@,
        r@[0].task_count == coding_task_table().len(),
        r@[0].estimated_duration_seconds == 120,
{
    vec![AgenticCodingScenarioDescriptor {
        scenario_id: lit("quick_agentic_coding"),
        name: lit("Quick Agentic Coding"),
        description: lit(
            "6 tasks testing file operations, command execution, code generation, and multi-step workflows. Defaults to MiniMax M2.1. Estimated 1-2 minutes.",
        ),
        task_count: 6,
        estimated_duration_seconds: 120,
    }]
}

// ---------------------------------------------------------------------------
// The tools offered to the model
// ---------------------------------------------------------------------------

pub open spec fn coding_tool_table() -> Seq<ToolView> {
    seq![
        tool_view(
            "fs.read"@,
            "Read the contents of a file. Provide the relative path from workspace root."@,
            object_schema(seq![("path"@, described("string"@, "Relative path to the file"@))], seq!["path"@]),
        ),
        tool_view(
            "fs.write"@,
            "Write content to a file. Creates directories if needed."@,
            object_schema(
                seq![
                    ("path"@, described("string"@, "Relative path to the file"@)),
                    ("content"@, described("string"@, "Full file content"@)),
                ],
                seq!["path"@, "content"@],
            ),
        ),
        tool_view(
            "fs.list"@,
            "List files and directories at a path."@,
            object_schema(
                seq![("path"@, described("string"@, "Relative path to list (default: current directory)"@))],
                Seq::empty(),
            ),
        ),
        tool_view(
            "cmd.exec"@,
            "Execute a shell command in the workspace."@,
            object_schema(seq![("command"@, described("string"@, "Shell command to execute"@))], seq!["command"@]),
        ),
        tool_view(
            "search.rg"@,
            "Search for patterns in files using ripgrep."@,
            object_schema(
                seq![
                    ("pattern"@, described("string"@, "Search pattern"@)),
                    ("path"@, described("string"@, "Directory to search (default: workspace root)"@)),
                ],
                seq!["pattern"@],
            ),
        ),
    ]
}

/// The tools of the agentic coding benchmark: reading, writing and listing
/// files, running a command and searching.
pub fn agentic_coding_tools() -> (r: Vec<ToolDescriptor>)
    ensures
        tool_views(r@) == coding_tool_table(),
{
    let read = tool(
        "fs.read",
        "Read the contents of a file. Provide the relative path from workspace root.",
        object_schema_value(props1("path", described_value("string", "Relative path to the file")), names1("path")),
    );
    let write = tool(
        "fs.write",
        "Write content to a file. Creates directories if needed.",
        object_schema_value(
            props2(
                "path",
                described_value("string", "Relative path to the file"),
                "content",
                described_value("string", "Full file content"),
            ),
            names2("path", "content"),
        ),
    );
    let list = tool(
        "fs.list",
        "List files and directories at a path.",
        object_schema_value(
            props1("path", described_value("string", "Relative path to list (default: current directory)")),
            no_names(),
        ),
    );
    let exec = tool(
        "cmd.exec",
        "Execute a shell command in the workspace.",
        object_schema_value(props1("command", described_value("string", "Shell command to execute")), names1("command")),
    );
    let search = tool(
        "search.rg",
        "Search for patterns in files using ripgrep.",
        object_schema_value(
            props2(
                "pattern",
                described_value("string", "Search pattern"),
                "path",
                described_value("string", "Directory to search (default: workspace root)"),
            ),
            names1("pattern"),
        ),
    );
    assert(read@ =~~= coding_tool_table()[0]);
    assert(write@ =~~= coding_tool_table()[1]);
    assert(list@ =~~= coding_tool_table()[2]);
    assert(exec@ =~~= coding_tool_table()[3]);
    assert(search@ =~~= coding_tool_table()[4]);
    let r = vec![read, write, list, exec, search];
    assert(tool_views(r@) =~= coding_tool_table());
    r
}

// ---------------------------------------------------------------------------
// What the tasks say
// ---------------------------------------------------------------------------

/// What each task says to the agent and the files its workspace starts
/// with, in the order the tasks run.
pub open spec fn coding_script_table() -> Seq<TaskScriptView> {
    seq![
        script_view(
            "file_create_read"@,
            "You are an autonomous coding agent. Use available tools to complete tasks efficiently. Always verify your work."@,
            "Create a file named 'config.json' in the workspace with the following content: {\"name\": \"my-app\", \"version\": \"1.0.0\", \"port\": 3000}. Then read it back to confirm it was written correctly."@,
            seq![],
        ),
        script_view(
            "list_and_analyze"@,
            "You are an autonomous coding agent. Analyze directory contents and create summary reports."@,
            "The workspace contains several source files. List all files, then create a file called 'file_inventory.txt' that contains a list of all files found with their approximate sizes (you can estimate based on typical file sizes). Format it as a simple text report."@,
            seq![("src/main.py"@, "# Main entry point\ndef main():\n    print('Hello World')\n\nif __name__ == '__main__':\n    main()\n"@), ("src/utils.py"@, "# Utility functions\ndef helper():\n    pass\n"@), ("README.md"@, "# My Project\n\nThis is a sample project.\n"@), ("requirements.txt"@, "requests\npytest\n"@)],
        ),
        script_view(
            "command_count_files"@,
            "You are an autonomous coding agent. Use shell commands when appropriate for system operations."@,
            "Use a bash command to count how many files (not directories) exist in the current workspace (recursively), then create a file called 'count_report.txt' with the count."@,
            seq![("data/a.txt"@, "content a"@), ("data/b.txt"@, "content b"@), ("data/c.txt"@, "content c"@), ("docs/readme.md"@, "# Docs"@)],
        ),
        script_view(
            "code_generate_function"@,
            "You are an autonomous coding agent. Write clean, well-documented code with proper error handling."@,
            "Create a file 'math_utils.py' containing a function called 'safe_divide' that takes two arguments (a, b) and returns a/b. It should handle division by zero by returning None and include a docstring. Also include a few test cases at the bottom that run when the file is executed directly."@,
            seq![],
        ),
        script_view(
            "multistep_refactor"@,
            "You are an autonomous coding agent. Follow multi-step workflows: read first, understand the code, then make targeted changes, and verify results."@,
            "The file 'calculator.py' has a bug. Read it first, then fix the bug in the 'multiply' function (it accidentally adds instead of multiplies), and add a test case that verifies the fix. Finally, run the file to confirm it works."@,
            seq![("calculator.py"@, "# Simple calculator\n\ndef add(a, b):\n    return a + b\n\ndef multiply(a, b):\n    # Bug: should multiply, not add\n    return a + b\n\ndef subtract(a, b):\n    return a - b\n\nif __name__ == '__main__':\n    print('2 + 3 =', add(2, 3))\n    print('5 - 2 =', subtract(5, 2))\n    print('4 * 3 =', multiply(4, 3))  # Should be 12, not 7\n"@)],
        ),
        script_view(
            "search_and_update"@,
            "You are an autonomous coding agent. Search for patterns and make precise updates."@,
            "Search for all files containing the word 'TODO' in the workspace. Create a file 'todo_report.md' listing each file and the TODO items found. Then update each TODO comment to include today's date in format [YYYY-MM-DD] at the end."@,
            seq![("main.py"@, "# TODO: Implement main function\n\ndef main():\n    pass  # TODO: Add logic here\n"@), ("utils.py"@, "# Helper functions\n\ndef helper():\n    # TODO: Optimize this later\n    pass\n"@)],
        ),
    ]
}

/// The tasks' scripts (see the table above), in the order the tasks run.
pub fn coding_task_scripts() -> (r: Vec<TaskScript>)
    ensures
        script_views(r@) == coding_script_table(),
{
    let mut files: Vec<(String, String)> = Vec::new();
    assert(file_views(files@) =~= seq![]);
    let s0 = script(
        "file_create_read",
        "You are an autonomous coding agent. Use available tools to complete tasks efficiently. Always verify your work.",
        "Create a file named 'config.json' in the workspace with the following content: {\"name\": \"my-app\", \"version\": \"1.0.0\", \"port\": 3000}. Then read it back to confirm it was written correctly.",
        files,
    );
    assert(s0@ =~~= coding_script_table()[0]);
    let mut files: Vec<(String, String)> = Vec::new();
    files.push((lit("src/main.py"), lit("# Main entry point\ndef main():\n    print('Hello World')\n\nif __name__ == '__main__':\n    main()\n")));
    files.push((lit("src/utils.py"), lit("# Utility functions\ndef helper():\n    pass\n")));
    files.push((lit("README.md"), lit("# My Project\n\nThis is a sample project.\n")));
    files.push((lit("requirements.txt"), lit("requests\npytest\n")));
    assert(file_views(files@) =~= seq![("src/main.py"@, "# Main entry point\ndef main():\n    print('Hello World')\n\nif __name__ == '__main__':\n    main()\n"@), ("src/utils.py"@, "# Utility functions\ndef helper():\n    pass\n"@), ("README.md"@, "# My Project\n\nThis is a sample project.\n"@), ("requirements.txt"@, "requests\npytest\n"@)]);
    let s1 = script(
        "list_and_analyze",
        "You are an autonomous coding agent. Analyze directory contents and create summary reports.",
        "The workspace contains several source files. List all files, then create a file called 'file_inventory.txt' that contains a list of all files found with their approximate sizes (you can estimate based on typical file sizes). Format it as a simple text report.",
        files,
    );
    assert(s1@ =~~= coding_script_table()[1]);
    let mut files: Vec<(String, String)> = Vec::new();
    files.push((lit("data/a.txt"), lit("content a")));
    files.push((lit("data/b.txt"), lit("content b")));
    files.push((lit("data/c.txt"), lit("content c")));
    files.push((lit("docs/readme.md"), lit("# Docs")));
    assert(file_views(files@) =~= seq![("data/a.txt"@, "content a"@), ("data/b.txt"@, "content b"@), ("data/c.txt"@, "content c"@), ("docs/readme.md"@, "# Docs"@)]);
    let s2 = script(
        "command_count_files",
        "You are an autonomous coding agent. Use shell commands when appropriate for system operations.",
        "Use a bash command to count how many files (not directories) exist in the current workspace (recursively), then create a file called 'count_report.txt' with the count.",
        files,
    );
    assert(s2@ =~~= coding_script_table()[2]);
    let mut files: Vec<(String, String)> = Vec::new();
    assert(file_views(files@) =~= seq![]);
    let s3 = script(
        "code_generate_function",
        "You are an autonomous coding agent. Write clean, well-documented code with proper error handling.",
        "Create a file 'math_utils.py' containing a function called 'safe_divide' that takes two arguments (a, b) and returns a/b. It should handle division by zero by returning None and include a docstring. Also include a few test cases at the bottom that run when the file is executed directly.",
        files,
    );
    assert(s3@ =~~= coding_script_table()[3]);
    let mut files: Vec<(String, String)> = Vec::new();
    files.push((lit("calculator.py"), lit("# Simple calculator\n\ndef add(a, b):\n    return a + b\n\ndef multiply(a, b):\n    # Bug: should multiply, not add\n    return a + b\n\ndef subtract(a, b):\n    return a - b\n\nif __name__ == '__main__':\n    print('2 + 3 =', add(2, 3))\n    print('5 - 2 =', subtract(5, 2))\n    print('4 * 3 =', multiply(4, 3))  # Should be 12, not 7\n")));
    assert(file_views(files@) =~= seq![("calculator.py"@, "# Simple calculator\n\ndef add(a, b):\n    return a + b\n\ndef multiply(a, b):\n    # Bug: should multiply, not add\n    return a + b\n\ndef subtract(a, b):\n    return a - b\n\nif __name__ == '__main__':\n    print('2 + 3 =', add(2, 3))\n    print('5 - 2 =', subtract(5, 2))\n    print('4 * 3 =', multiply(4, 3))  # Should be 12, not 7\n"@)]);
    let s4 = script(
        "multistep_refactor",
        "You are an autonomous coding agent. Follow multi-step workflows: read first, understand the code, then make targeted changes, and verify results.",
        "The file 'calculator.py' has a bug. Read it first, then fix the bug in the 'multiply' function (it accidentally adds instead of multiplies), and add a test case that verifies the fix. Finally, run the file to confirm it works.",
        files,
    );
    assert(s4@ =~~= coding_script_table()[4]);
    let mut files: Vec<(String, String)> = Vec::new();
    files.push((lit("main.py"), lit("# TODO: Implement main function\n\ndef main():\n    pass  # TODO: Add logic here\n")));
    files.push((lit("utils.py"), lit("# Helper functions\n\ndef helper():\n    # TODO: Optimize this later\n    pass\n")));
    assert(file_views(files@) =~= seq![("main.py"@, "# TODO: Implement main function\n\ndef main():\n    pass  # TODO: Add logic here\n"@), ("utils.py"@, "# Helper functions\n\ndef helper():\n    # TODO: Optimize this later\n    pass\n"@)]);
    let s5 = script(
        "search_and_update",
        "You are an autonomous coding agent. Search for patterns and make precise updates.",
        "Search for all files containing the word 'TODO' in the workspace. Create a file 'todo_report.md' listing each file and the TODO items found. Then update each TODO comment to include today's date in format [YYYY-MM-DD] at the end.",
        files,
    );
    assert(s5@ =~~= coding_script_table()[5]);
    let r = vec![s0, s1, s2, s3, s4, s5];
    assert(script_views(r@) =~= coding_script_table());
    r
}

} // verus!
