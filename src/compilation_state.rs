use vstd::prelude::*;

verus! {

/// Whether a build is currently running.
pub enum State {
    NotCompiling,
    Compiling,
}

/// Advisory progress of a build, published for a status endpoint.
pub struct CompilationState {
    pub cur_state: State,
    pub message: String,
    pub progress: i32,
}

impl Default for CompilationState {
    /// No build running, no message, no progress.
    fn default() -> (r: Self)
        ensures
            r.cur_state is NotCompiling,
            r.message@ == Seq::<char>::empty(),
            r.progress == 0,
    {
        CompilationState { cur_state: State::NotCompiling, message: String::new(), progress: 0 }
    }
}

impl CompilationState {
    /// A snapshot of a build in progress.
    pub fn compiling(message: String, progress: i32) -> (r: Self)
        ensures
            r.cur_state is Compiling,
            r.message == message,
            r.progress == progress,
    {
        CompilationState { cur_state: State::Compiling, message, progress }
    }
}

} // verus!
