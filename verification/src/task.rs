use vstd::prelude::*;

verus! {

/// A single task record.
///
/// The `id` is assigned by the store when the record is created and is
/// immutable thereafter; callers cannot pick it. `completed` and `editing`
/// are flags persisted verbatim, and `description` is caller-supplied text,
/// possibly empty.
#[derive(Debug)]
pub struct Task {
    pub id: u8,
    pub completed: bool,
    pub description: String,
    pub editing: bool,
}

/// The mathematical value of a task record.
pub ghost struct TaskSpec {
    pub id: u8,
    pub completed: bool,
    pub description: Seq<char>,
    pub editing: bool,
}

impl View for Task {
    type V = TaskSpec;

    open spec fn view(&self) -> TaskSpec {
        TaskSpec {
            id: self.id,
            completed: self.completed,
            description: self.description@,
            editing: self.editing,
        }
    }
}

/// The same record with its identifier replaced by `id`.
pub open spec fn with_id(t: TaskSpec, id: u8) -> TaskSpec {
    TaskSpec { id, ..t }
}

} // verus!
