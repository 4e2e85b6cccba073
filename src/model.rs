use vstd::prelude::*;

verus! {

/// A task record as stored: an identifier assigned by storage, a description
/// and a completion flag.
pub struct Task {
    id: i32,
    task: String,
    completed: bool,
}

/// The fields of a task that a client sends: the description and the flag,
/// without an identifier.
pub struct NewTask {
    task: String,
    completed: bool,
}

/// The mathematical value of a task: identifier, description, flag.
pub struct TaskView {
    pub id: int,
    pub task: Seq<char>,
    pub completed: bool,
}

impl View for Task {
    type V = TaskView;

    closed spec fn view(&self) -> TaskView {
        TaskView { id: self.id as int, task: self.task@, completed: self.completed }
    }
}

impl View for NewTask {
    type V = (Seq<char>, bool);

    closed spec fn view(&self) -> (Seq<char>, bool) {
        (self.task@, self.completed)
    }
}

impl NewTask {
    pub fn new(task: String, completed: bool) -> (r: NewTask)
        ensures
            r@ == (task@, completed),
    {
        NewTask { task, completed }
    }

    /// The description.
    pub fn task(&self) -> (r: &str)
        ensures
            r@ == self@.0,
    {
        self.task.as_str()
    }

    pub fn completed(&self) -> (r: bool)
        ensures
            r == self@.1,
    {
        self.completed
    }
}

impl Task {
    pub fn new(id: i32, task: String, completed: bool) -> (r: Task)
        ensures
            r@ == (TaskView { id: id as int, task: task@, completed }),
    {
        Task { id, task, completed }
    }

    /// The record that an update of the task at path identifier `id` writes:
    /// the body's description and flag under that identifier. An identifier
    /// beyond the range of stored identifiers names no record: `None`.
    pub fn for_update(id: u32, body: NewTask) -> (r: Option<Task>)
        ensures
            id <= i32::MAX ==> r is Some && r->Some_0@ == (TaskView {
                id: id as int,
                task: body@.0,
                completed: body@.1,
            }),
            id > i32::MAX ==> r is None,
    {
        if id <= i32::MAX as u32 {
            let NewTask { task, completed } = body;
            Some(Task { id: id as i32, task, completed })
        } else {
            None
        }
    }

    pub fn id(&self) -> (r: i32)
        ensures
            r as int == self@.id,
    {
        self.id
    }

    /// The description.
    pub fn task(&self) -> (r: &str)
        ensures
            r@ == self@.task,
    {
        self.task.as_str()
    }

    pub fn completed(&self) -> (r: bool)
        ensures
            r == self@.completed,
    {
        self.completed
    }
}

} // verus!
