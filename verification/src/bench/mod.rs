//! Benchmarks of model providers: their options, task catalogues and the
//! parts of scoring that do not depend on measured timings.
pub mod agent_loop;
pub mod agentic_coding;
pub mod business_day;
pub mod business_ops;
pub mod diagram;
pub mod diagram_state;
pub mod llm;
pub mod llm_answers;
pub mod llm_tasks;
pub mod metadata;
pub mod task_script;
