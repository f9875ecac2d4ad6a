//! The tasks of the LLM benchmark: prompts, how each answer is judged, the
//! share of the judgement a task must reach to pass, and its weight.
//!
//! Thresholds and weights are in hundredths (100 is 1.0); expected numbers
//! are whole.  Calling the models and scoring the answers is the caller's
//! business.
use vstd::prelude::*;

use crate::bench::llm::LlmTaskCategory;
use crate::text::{lit, views};

verus! {

/// How an answer is judged.
#[derive(Debug)]
pub enum LlmJudge {
    /// A number within `tolerance` of `expected`.
    Numeric { expected: i64, tolerance: u64 },
    /// Exactly this label.
    ExactLabel { expected: String },
    /// A JSON object with these `(key, value)` fields.
    JsonFields { fields: Vec<(String, String)> },
    /// Text holding every phrase, in at most `max_words` words.
    ContainsText { required: Vec<String>, max_words: Option<usize> },
}

pub enum JudgeView {
    Numeric { expected: int, tolerance: nat },
    ExactLabel { expected: Seq<char> },
    JsonFields { fields: Seq<(Seq<char>, Seq<char>)> },
    ContainsText { required: Seq<Seq<char>>, max_words: Option<usize> },
}

pub open spec fn field_views(v: Seq<(String, String)>) -> Seq<(Seq<char>, Seq<char>)> {
    Seq::new(v.len(), |i: int| (v[i].0@, v[i].1@))
}

impl View for LlmJudge {
    type V = JudgeView;

    open spec fn view(&self) -> JudgeView {
        match self {
            LlmJudge::Numeric { expected, tolerance } => JudgeView::Numeric { expected: *expected as int, tolerance: *tolerance as nat },
            LlmJudge::ExactLabel { expected } => JudgeView::ExactLabel { expected: expected@ },
            LlmJudge::JsonFields { fields } => JudgeView::JsonFields { fields: field_views(fields@) },
            LlmJudge::ContainsText { required, max_words } => JudgeView::ContainsText { required: views(required@), max_words: *max_words },
        }
    }
}

#[derive(Debug)]
pub struct LlmTaskDefinition {
    pub id: String,
    pub label: String,
    pub category: LlmTaskCategory,
    pub system_prompt: String,
    pub user_prompt: String,
    pub judge: LlmJudge,
    /// Hundredths of the judgement needed to pass.
    pub pass_threshold: u32,
    /// Hundredths.
    pub weight: u32,
}

pub struct LlmTaskView {
    pub id: Seq<char>,
    pub label: Seq<char>,
    pub category: LlmTaskCategory,
    pub system_prompt: Seq<char>,
    pub user_prompt: Seq<char>,
    pub judge: JudgeView,
    pub pass_threshold: u32,
    pub weight: u32,
}

impl View for LlmTaskDefinition {
    type V = LlmTaskView;

    open spec fn view(&self) -> LlmTaskView {
        LlmTaskView {
            id: self.id@,
            label: self.label@,
            category: self.category,
            system_prompt: self.system_prompt@,
            user_prompt: self.user_prompt@,
            judge: self.judge@,
            pass_threshold: self.pass_threshold,
            weight: self.weight,
        }
    }
}

pub open spec fn llm_task(
    id: Seq<char>,
    label: Seq<char>,
    category: LlmTaskCategory,
    system_prompt: Seq<char>,
    user_prompt: Seq<char>,
    judge: JudgeView,
    pass_threshold: u32,
    weight: u32,
) -> LlmTaskView {
    LlmTaskView { id, label, category, system_prompt, user_prompt, judge, pass_threshold, weight }
}

/// The benchmark's tasks, in the order they run.
pub open spec fn llm_task_table() -> Seq<LlmTaskView> {
    seq![
        llm_task("arithmetic_accuracy"@, "Arithmetic reasoning"@, LlmTaskCategory::Reasoning,
            "You are a careful assistant. Return only the final answer."@,
            "Compute ((128 * 7) - 96) / 4. Return only the number."@,
            JudgeView::Numeric { expected: 200, tolerance: 0 }, 100, 100),
        llm_task("ticket_classification"@, "Ticket classification"@, LlmTaskCategory::Classification,
            "Classify support tickets with strict label output."@,
            "Labels: billing, reliability, feature-request. Ticket: After the latest deployment, checkout requests return 502 for 30% of users. Respond with the label only."@,
            JudgeView::ExactLabel { expected: "reliability"@ }, 100, 90),
        llm_task("structured_extraction"@, "Structured extraction"@, LlmTaskCategory::Extraction,
            "Extract fields exactly. Output valid JSON only."@,
            "Incident details:\nCustomer: Aster Logistics\nPriority: High\nRegion: us-west-2\nTicket: INC-4821\n\nReturn JSON with keys customer, priority, region, ticket_id."@,
            JudgeView::JsonFields { fields: seq![("customer"@, "Aster Logistics"@), ("priority"@, "High"@), ("region"@, "us-west-2"@), ("ticket_id"@, "INC-4821"@)] }, 100, 120),
        llm_task("code_comprehension"@, "Code comprehension"@, LlmTaskCategory::CodeComprehension,
            "You are a code analysis assistant. Provide the exact output of the code without explanation."@,
            "What is the output of this Python code?\n\n```python\nvals = [3, 1, 4]\nvals.sort()\nresult = '-'.join(str(v * v) for v in vals[1:])\nprint(result)\n```\n\nYour answer should be exactly: 9-16"@,
            JudgeView::ContainsText { required: seq!["9-16"@], max_words: None }, 100, 100),
        llm_task("instruction_following"@, "Instruction following"@, LlmTaskCategory::InstructionFollowing,
            "Follow every formatting instruction exactly."@,
            "Write one sentence (20 words max) about this release: search queries are now indexed incrementally and every deploy requires a human review gate. Include the exact phrases 'faster search' and 'review gate'."@,
            JudgeView::ContainsText { required: seq!["faster search"@, "review gate"@], max_words: Some(20usize) }, 90, 100),
        llm_task("agentic_tool_choice"@, "Agentic tool choice"@, LlmTaskCategory::AgenticChoice,
            "Pick the best first tool for an autonomous coding agent."@,
            "Goal: update a function in an existing file, but you have not inspected the file yet. Available tools: fs.read, fs.write, cmd.exec, git.status. Reply with the best first tool name only."@,
            JudgeView::ExactLabel { expected: "fs.read"@ }, 100, 110),
        llm_task("json_schema_validation"@, "JSON schema validation"@, LlmTaskCategory::ToolUse,
            "You are a JSON validator. Check if the provided data conforms to the schema and report any issues."@,
            "Validate this JSON against the schema:\n\nSchema: {\"type\": \"object\", \"required\": [\"name\", \"age\"], \"properties\": {\"name\": {\"type\": \"string\"}, \"age\": {\"type\": \"integer\", \"minimum\": 0}}}\n\nData: {\"name\": \"Alice\", \"age\": 30}\n\nIs this valid? Reply with 'valid' or 'invalid' only."@,
            JudgeView::ExactLabel { expected: "valid"@ }, 100, 80),
        llm_task("multi_step_reasoning"@, "Multi-step reasoning"@, LlmTaskCategory::Reasoning,
            "Solve multi-step reasoning problems carefully. Show your work and provide the final answer."@,
            "A bakery sells cupcakes in boxes of 6. If they have 47 cupcakes and pack as many full boxes as possible, how many cupcakes remain unpacked? Provide only the number of remaining cupcakes."@,
            JudgeView::Numeric { expected: 5, tolerance: 0 }, 100, 110),
        llm_task("error_handling"@, "Error handling analysis"@, LlmTaskCategory::CodeComprehension,
            "Analyze code and identify potential errors or edge cases."@,
            "What error will this Python code raise?\n\n```python\nitems = [1, 2, 3]\nprint(items[5])\n```\n\nReply with the exact error type name (e.g., 'IndexError')."@,
            JudgeView::ContainsText { required: seq!["indexerror"@], max_words: None }, 100, 90),    ]
}

pub open spec fn task_views(v: Seq<LlmTaskDefinition>) -> Seq<LlmTaskView> {
    Seq::new(v.len(), |i: int| v[i]@)
}

fn task(
    id: &str,
    label: &str,
    category: LlmTaskCategory,
    system_prompt: &str,
    user_prompt: &str,
    judge: LlmJudge,
    pass_threshold: u32,
    weight: u32,
) -> (r: LlmTaskDefinition)
    ensures
        r@ == llm_task(id@, label@, category, system_prompt@, user_prompt@, judge@, pass_threshold, weight),
{
    LlmTaskDefinition {
        id: lit(id),
        label: lit(label),
        category,
        system_prompt: lit(system_prompt),
        user_prompt: lit(user_prompt),
        judge,
        pass_threshold,
        weight,
    }
}

fn numeric(expected: i64, tolerance: u64) -> (r: LlmJudge)
    ensures
        r@ == (JudgeView::Numeric { expected: expected as int, tolerance: tolerance as nat }),
{
    LlmJudge::Numeric { expected, tolerance }
}

fn exact_label(expected: &str) -> (r: LlmJudge)
    ensures
        r@ == (JudgeView::ExactLabel { expected: expected@ }),
{
    LlmJudge::ExactLabel { expected: lit(expected) }
}

fn json_fields4(a: (&str, &str), b: (&str, &str), c: (&str, &str), d: (&str, &str)) -> (r: LlmJudge)
    ensures
        r@ == (JudgeView::JsonFields { fields: seq![(a.0@, a.1@), (b.0@, b.1@), (c.0@, c.1@), (d.0@, d.1@)] }),
{
    let fields = vec![(lit(a.0), lit(a.1)), (lit(b.0), lit(b.1)), (lit(c.0), lit(c.1)), (lit(d.0), lit(d.1))];
    assert(field_views(fields@) =~= seq![(a.0@, a.1@), (b.0@, b.1@), (c.0@, c.1@), (d.0@, d.1@)]);
    LlmJudge::JsonFields { fields }
}

fn contains_text1(a: &str, max_words: Option<usize>) -> (r: LlmJudge)
    ensures
        r@ == (JudgeView::ContainsText { required: seq![a@], max_words }),
{
    let required = vec![lit(a)];
    assert(views(required@) =~= seq![a@]);
    LlmJudge::ContainsText { required, max_words }
}

fn contains_text2(a: &str, b: &str, max_words: Option<usize>) -> (r: LlmJudge)
    ensures
        r@ == (JudgeView::ContainsText { required: seq![a@, b@], max_words }),
{
    let required = vec![lit(a), lit(b)];
    assert(views(required@) =~= seq![a@, b@]);
    LlmJudge::ContainsText { required, max_words }
}

/// The benchmark's tasks (see `llm_task_table`).
pub fn default_tasks() -> (r: Vec<LlmTaskDefinition>)
    ensures
        task_views(r@) == llm_task_table(),
{
    let mut tasks: Vec<LlmTaskDefinition> = Vec::new();
    tasks.push(task("arithmetic_accuracy", "Arithmetic reasoning", LlmTaskCategory::Reasoning,
        "You are a careful assistant. Return only the final answer.",
        "Compute ((128 * 7) - 96) / 4. Return only the number.",
        numeric(200, 0), 100, 100));
    tasks.push(task("ticket_classification", "Ticket classification", LlmTaskCategory::Classification,
        "Classify support tickets with strict label output.",
        "Labels: billing, reliability, feature-request. Ticket: After the latest deployment, checkout requests return 502 for 30% of users. Respond with the label only.",
        exact_label("reliability"), 100, 90));
    tasks.push(task("structured_extraction", "Structured extraction", LlmTaskCategory::Extraction,
        "Extract fields exactly. Output valid JSON only.",
        "Incident details:\nCustomer: Aster Logistics\nPriority: High\nRegion: us-west-2\nTicket: INC-4821\n\nReturn JSON with keys customer, priority, region, ticket_id.",
        json_fields4(("customer", "Aster Logistics"), ("priority", "High"), ("region", "us-west-2"), ("ticket_id", "INC-4821")), 100, 120));
    tasks.push(task("code_comprehension", "Code comprehension", LlmTaskCategory::CodeComprehension,
        "You are a code analysis assistant. Provide the exact output of the code without explanation.",
        "What is the output of this Python code?\n\n```python\nvals = [3, 1, 4]\nvals.sort()\nresult = '-'.join(str(v * v) for v in vals[1:])\nprint(result)\n```\n\nYour answer should be exactly: 9-16",
        contains_text1("9-16", None), 100, 100));
    tasks.push(task("instruction_following", "Instruction following", LlmTaskCategory::InstructionFollowing,
        "Follow every formatting instruction exactly.",
        "Write one sentence (20 words max) about this release: search queries are now indexed incrementally and every deploy requires a human review gate. Include the exact phrases 'faster search' and 'review gate'.",
        contains_text2("faster search", "review gate", Some(20usize)), 90, 100));
    tasks.push(task("agentic_tool_choice", "Agentic tool choice", LlmTaskCategory::AgenticChoice,
        "Pick the best first tool for an autonomous coding agent.",
        "Goal: update a function in an existing file, but you have not inspected the file yet. Available tools: fs.read, fs.write, cmd.exec, git.status. Reply with the best first tool name only.",
        exact_label("fs.read"), 100, 110));
    tasks.push(task("json_schema_validation", "JSON schema validation", LlmTaskCategory::ToolUse,
        "You are a JSON validator. Check if the provided data conforms to the schema and report any issues.",
        "Validate this JSON against the schema:\n\nSchema: {\"type\": \"object\", \"required\": [\"name\", \"age\"], \"properties\": {\"name\": {\"type\": \"string\"}, \"age\": {\"type\": \"integer\", \"minimum\": 0}}}\n\nData: {\"name\": \"Alice\", \"age\": 30}\n\nIs this valid? Reply with 'valid' or 'invalid' only.",
        exact_label("valid"), 100, 80));
    tasks.push(task("multi_step_reasoning", "Multi-step reasoning", LlmTaskCategory::Reasoning,
        "Solve multi-step reasoning problems carefully. Show your work and provide the final answer.",
        "A bakery sells cupcakes in boxes of 6. If they have 47 cupcakes and pack as many full boxes as possible, how many cupcakes remain unpacked? Provide only the number of remaining cupcakes.",
        numeric(5, 0), 100, 110));
    tasks.push(task("error_handling", "Error handling analysis", LlmTaskCategory::CodeComprehension,
        "Analyze code and identify potential errors or edge cases.",
        "What error will this Python code raise?\n\n```python\nitems = [1, 2, 3]\nprint(items[5])\n```\n\nReply with the exact error type name (e.g., 'IndexError').",
        contains_text1("indexerror", None), 100, 90));
    proof {
        assert(task_views(tasks@) =~= llm_task_table());
    }
    tasks
}

} // verus!
