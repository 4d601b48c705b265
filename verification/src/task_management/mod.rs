//! Tasks that programs register by name, to be run later by name.
use crate::entries::Entries;
use crate::host::Host;
use crate::interpreter::datatype::Callable;
use crate::text::{cat, cat3};
use vstd::prelude::*;

verus! {

pub struct TaskRegistry {
    tasks: Entries<Callable>,
}

impl TaskRegistry {
    /// The registered tasks by name.
    pub closed spec fn view(&self) -> Map<Seq<char>, Callable> {
        self.tasks.view()
    }

    pub closed spec fn wf(&self) -> bool {
        self.tasks.wf()
    }

    pub fn new() -> (r: TaskRegistry)
        ensures
            r.wf(),
            r.view() == Map::<Seq<char>, Callable>::empty(),
    {
        TaskRegistry { tasks: Entries::new() }
    }

    /// Registers `task` under `name`, replacing a task registered under it before (and
    /// saying so through `host`).
    pub fn register<H: Host>(&mut self, name: String, task: Callable, host: &H)
        requires
            old(self).wf(),
        ensures
            final(self).wf(),
            final(self).view() == old(self).view().insert(name@, task),
    {
        if self.tasks.contains(name.as_str()) {
            let message = cat3("Hey buddy! Task '", name.as_str(), "' was already registered, but I'll override it for you. I hope you know what you're doing :)");
            host.print(message.as_str());
        }
        self.tasks.insert(name, task);
    }

    /// The task registered under `name`.
    pub fn get(&self, name: &str) -> (r: Result<Callable, TaskRunError>)
        requires
            self.wf(),
        ensures
            r is Ok <==> self.view().contains_key(name@),
            r matches Ok(c) ==> c == self.view()[name@],
            r matches Err(e) ==> e.task@ == name@ && e.reason@ == "Not registered"@,
    {
        match self.tasks.get(name) {
            Some(task) => Ok(task.duplicate()),
            None => Err(TaskRunError { task: name.to_owned(), reason: "Not registered" }),
        }
    }
}

#[derive(Debug)]
pub struct TaskRunError {
    pub task: String,
    pub reason: &'static str,
}

impl TaskRunError {
    /// `Running task '<task>' failed: <reason>`.
    pub fn to_text(&self) -> (s: String)
        ensures
            s@ == "Running task '"@ + self.task@ + "' failed: "@ + self.reason@,
    {
        let head = cat3("Running task '", self.task.as_str(), "' failed: ");
        cat(head.as_str(), self.reason)
    }
}

/// After registering a task under a name, getting that name gives the task; other names
/// are unaffected.
pub proof fn law_get_after_register(
    tasks: Map<Seq<char>, Callable>,
    name: Seq<char>,
    task: Callable,
    other: Seq<char>,
)
    requires
        other != name,
    ensures
        tasks.insert(name, task).contains_key(name),
        tasks.insert(name, task)[name] == task,
        tasks.insert(name, task).contains_key(other) == tasks.contains_key(other),
{
}

} // verus!
