//! Spinner: the tasks that can be run by name.

use vstd::prelude::*;

verus! {

/// A task that a spinner step can run.
#[derive(Debug, Clone, Copy, PartialEq, Eq)]
pub enum NamedTask {
    /// Waits five seconds.
    WaitFiveSeconds,
}

/// The task called `name`, or the message for an unknown name.
pub open spec fn task_named(name: Seq<char>) -> Result<NamedTask, Seq<char>> {
    if name == "wait_five_seconds"@ {
        Ok(NamedTask::WaitFiveSeconds)
    } else {
        Err("Function not found: "@ + name)
    }
}

/// Finds the task called `name`.
pub fn execute_function_by_name(name: &String) -> (r: Result<NamedTask, String>)
    ensures
        task_named(name@) matches Ok(t) ==> r == Ok::<NamedTask, String>(t),
        task_named(name@) matches Err(m) ==> (r matches Err(e) && e@ == m),
{
    if *name == String::from_str("wait_five_seconds") {
        Ok(NamedTask::WaitFiveSeconds)
    } else {
        let mut m = String::from_str("Function not found: ");
        m.append(name.as_str());
        Err(m)
    }
}

/// How long a task waits, in milliseconds.
pub open spec fn task_wait_ms(t: NamedTask) -> u64 {
    match t {
        NamedTask::WaitFiveSeconds => 5000,
    }
}

/// The wait of a task, in milliseconds.
pub fn task_duration_ms(t: NamedTask) -> (ms: u64)
    ensures
        ms == task_wait_ms(t),
{
    match t {
        NamedTask::WaitFiveSeconds => 5000,
    }
}

/// The text a task hands back when it is done.
pub open spec fn task_result(t: NamedTask) -> Seq<char> {
    match t {
        NamedTask::WaitFiveSeconds => "Task completed successfully"@,
    }
}

/// The text `t` hands back when it is done.
pub fn task_output(t: NamedTask) -> (s: String)
    ensures
        s@ == task_result(t),
{
    match t {
        NamedTask::WaitFiveSeconds => String::from_str("Task completed successfully"),
    }
}

} // verus!
