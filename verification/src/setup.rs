use vstd::prelude::*;

verus! {

/// One of the two sides that have to be ready before the main window shows.
#[derive(Clone, Copy, Debug, PartialEq, Eq, Structural)]
pub enum SetupTask {
    Frontend,
    Backend,
}

/// Which sides have reported that they are ready.
#[derive(Clone, Copy, Debug, PartialEq, Eq, Structural)]
pub struct SetupState {
    pub frontend_task: bool,
    pub backend_task: bool,
}

impl SetupState {
    /// The state at the start: neither side is ready.
    pub fn new() -> (state: SetupState)
        ensures
            !state.frontend_task,
            !state.backend_task,
    {
        SetupState { frontend_task: false, backend_task: false }
    }

    /// Both sides are ready.
    pub open spec fn ready(self) -> bool {
        self.frontend_task && self.backend_task
    }

    /// Takes down that `task` is done, and tells whether both sides are ready
    /// now: that is when the splash screen goes and the main window shows.
    pub fn set_complete(&mut self, task: SetupTask) -> (ready: bool)
        ensures
            final(self).frontend_task == (old(self).frontend_task || task == SetupTask::Frontend),
            final(self).backend_task == (old(self).backend_task || task == SetupTask::Backend),
            ready == final(self).ready(),
    {
        match task {
            SetupTask::Frontend => {
                self.frontend_task = true;
            },
            SetupTask::Backend => {
                self.backend_task = true;
            },
        }
        self.frontend_task && self.backend_task
    }
}

/// The task that a name stands for: `frontend` or `backend`.
pub open spec fn task_of(name: Seq<char>) -> Option<SetupTask> {
    if name == "frontend"@ {
        Some(SetupTask::Frontend)
    } else if name == "backend"@ {
        Some(SetupTask::Backend)
    } else {
        None
    }
}

/// The task that `name` stands for, where it names one.
pub fn task_named(name: &String) -> (task: Option<SetupTask>)
    ensures
        task == task_of(name@),
{
    let frontend = "frontend".to_owned();
    let backend = "backend".to_owned();
    if *name == frontend {
        Some(SetupTask::Frontend)
    } else if *name == backend {
        Some(SetupTask::Backend)
    } else {
        None
    }
}

} // verus!
