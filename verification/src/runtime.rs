//! Running asynchronous work from code that is not asynchronous.
use vstd::prelude::*;

verus! {

/// The kinds of runtime that a thread can belong to.
#[derive(Clone, Copy, Debug, PartialEq, Eq, Structural)]
pub enum Flavor {
    /// All tasks run on one thread.
    CurrentThread,
    /// The tasks run on several threads.
    MultiThread,
    /// Another kind.
    Other,
}

/// How asynchronous work is run to its end.
#[derive(Clone, Copy, Debug, PartialEq, Eq, Structural)]
pub enum Execution {
    /// On a runtime of its own, on a thread of its own, while the calling thread waits for it.
    OnOtherThread,
    /// On the runtime that the calling thread belongs to, which gives the thread up meanwhile.
    OnThisRuntime,
    /// On a runtime of its own, on the calling thread.
    OnNewRuntime,
}

/// How work is run on a thread that belongs to such a runtime, or to none. There is no way on a
/// runtime of another kind.
pub open spec fn way_from(current: Option<Flavor>) -> Option<Execution> {
    match current {
        Some(Flavor::CurrentThread) => Some(Execution::OnOtherThread),
        Some(Flavor::MultiThread) => Some(Execution::OnThisRuntime),
        Some(Flavor::Other) => None,
        None => Some(Execution::OnNewRuntime),
    }
}

/// Decides how work is run on a thread that belongs to such a runtime, or to none.
pub fn execution(current: Option<Flavor>) -> (r: Execution)
    requires
        current != Some(Flavor::Other),
    ensures
        way_from(current) == Some(r),
{
    match current {
        Some(Flavor::CurrentThread) => Execution::OnOtherThread,
        Some(_) => Execution::OnThisRuntime,
        None => Execution::OnNewRuntime,
    }
}

/// The calling thread never runs the work on a runtime of its own while it belongs to one, and a
/// runtime with a single thread never has to run the work that this thread waits for.
pub proof fn no_work_waits_for_itself(current: Option<Flavor>)
    ensures
        way_from(current) == Some(Execution::OnNewRuntime) <==> current is None,
        way_from(current) == Some(Execution::OnThisRuntime) ==> current != Some(
            Flavor::CurrentThread,
        ),
{
}

} // verus!
