use vstd::prelude::*;

verus! {

/// A task as the contracts see it.
pub ghost struct TaskView {
    pub id: int,
    pub completed: bool,
    pub name: Seq<char>,
}

/// One entry of the todo list.
pub struct Task {
    pub id: u64,
    pub completed: bool,
    pub name: String,
}

impl View for Task {
    type V = TaskView;

    open spec fn view(&self) -> TaskView {
        TaskView { id: self.id as int, completed: self.completed, name: self.name@ }
    }
}

impl Task {
    pub fn new(id: u64, name: String, completed: bool) -> (r: Task)
        ensures
            r.id == id,
            r.name@ == name@,
            r.completed == completed,
    {
        Task { id, completed, name }
    }
}

} // verus!
