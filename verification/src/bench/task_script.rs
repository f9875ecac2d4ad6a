//! What a benchmark task says to the model and the files its scratch
//! workspace starts with.
use vstd::prelude::*;

use crate::text::lit;

verus! {

/// A task's script: the task it belongs to, the system prompt, the first
/// user prompt and the files (path, content) set up before it starts.
#[derive(Debug)]
pub struct TaskScript {
    pub task_id: String,
    pub system_prompt: String,
    pub initial_prompt: String,
    pub setup_files: Vec<(String, String)>,
}

pub struct TaskScriptView {
    pub task_id: Seq<char>,
    pub system_prompt: Seq<char>,
    pub initial_prompt: Seq<char>,
    pub setup_files: Seq<(Seq<char>, Seq<char>)>,
}

pub open spec fn file_views(v: Seq<(String, String)>) -> Seq<(Seq<char>, Seq<char>)> {
    Seq::new(v.len(), |i: int| (v[i].0@, v[i].1@))
}

impl View for TaskScript {
    type V = TaskScriptView;

    open spec fn view(&self) -> TaskScriptView {
        TaskScriptView {
            task_id: self.task_id@,
            system_prompt: self.system_prompt@,
            initial_prompt: self.initial_prompt@,
            setup_files: file_views(self.setup_files@),
        }
    }
}

pub open spec fn script_views(v: Seq<TaskScript>) -> Seq<TaskScriptView> {
    Seq::new(v.len(), |i: int| v[i]@)
}

pub open spec fn script_view(
    task_id: Seq<char>,
    system_prompt: Seq<char>,
    initial_prompt: Seq<char>,
    setup_files: Seq<(Seq<char>, Seq<char>)>,
) -> TaskScriptView {
    TaskScriptView { task_id, system_prompt, initial_prompt, setup_files }
}

pub fn script(task_id: &str, system_prompt: &str, initial_prompt: &str, setup_files: Vec<(String, String)>) -> (r: TaskScript)
    ensures
        r@ == script_view(task_id@, system_prompt@, initial_prompt@, file_views(setup_files@)),
{
    TaskScript { task_id: lit(task_id), system_prompt: lit(system_prompt), initial_prompt: lit(initial_prompt), setup_files }
}

} // verus!
