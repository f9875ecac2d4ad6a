//! What every benchmark report records about its run.
use vstd::prelude::*;

verus! {

/// The kind of workload a benchmark measured.
#[derive(PartialEq, Eq, Structural, Clone, Copy, Debug)]
pub enum WorkloadKind {
    Embeddings,
    LlmAgentLoop,
    LlmSharedTasks,
    LlmBusinessOps,
    LlmAgenticCoding,
}

/// The name a workload is reported under.
pub open spec fn workload_name(w: WorkloadKind) -> Seq<char> {
    match w {
        WorkloadKind::Embeddings => "embeddings"@,
        WorkloadKind::LlmAgentLoop => "llm_agent_loop"@,
        WorkloadKind::LlmSharedTasks => "llm_shared_tasks"@,
        WorkloadKind::LlmBusinessOps => "llm_business_ops"@,
        WorkloadKind::LlmAgenticCoding => "llm_agentic_coding"@,
    }
}

impl WorkloadKind {
    pub fn as_str(&self) -> (r: &'static str)
        ensures
            r@ == workload_name(*self),
    {
        match self {
            WorkloadKind::Embeddings => "embeddings",
            WorkloadKind::LlmAgentLoop => "llm_agent_loop",
            WorkloadKind::LlmSharedTasks => "llm_shared_tasks",
            WorkloadKind::LlmBusinessOps => "llm_business_ops",
            WorkloadKind::LlmAgenticCoding => "llm_agentic_coding",
        }
    }
}

/// The version of the report layout.
pub const SCHEMA_VERSION: u32 = 1;

#[derive(Debug)]
pub struct BenchmarkRunMetadata {
    pub schema_version: u32,
    pub workload: WorkloadKind,
    /// When the run started, in RFC 3339 form.
    pub generated_at: String,
    pub warmup_iterations: usize,
    pub measured_iterations: usize,
    pub batch_sizes: Vec<usize>,
}

impl BenchmarkRunMetadata {
    /// The metadata of a run that starts now.
    pub fn new(
        workload: WorkloadKind,
        warmup_iterations: usize,
        measured_iterations: usize,
        batch_sizes: Vec<usize>,
    ) -> (r: BenchmarkRunMetadata)
        ensures
            r.schema_version == SCHEMA_VERSION,
            r.workload == workload,
            r.warmup_iterations == warmup_iterations,
            r.measured_iterations == measured_iterations,
            r.batch_sizes@ == batch_sizes@,
    {
        BenchmarkRunMetadata {
            schema_version: SCHEMA_VERSION,
            workload,
            generated_at: crate::preferences::now_rfc3339(),
            warmup_iterations,
            measured_iterations,
            batch_sizes,
        }
    }
}

} // verus!
