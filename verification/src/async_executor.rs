use std::rc::Rc;
use vstd::prelude::*;

verus! {

/// Runs the editor's asynchronous work and says when some of it has
/// finished, by calling `onupdate` (of type `U`, a callback).
pub struct AsyncExecutor<U> {
    /// Called after each piece of work has finished.
    pub onupdate: Option<Rc<U>>,
}

impl<U> AsyncExecutor<U> {
    /// An executor with nobody to tell about finished work.
    pub fn new() -> (r: Self)
        ensures
            r.onupdate is None,
    {
        Self { onupdate: None }
    }

    /// Sets whom to tell about finished work.
    pub fn setonupdate(&mut self, onupdate: Rc<U>)
        ensures
            final(self).onupdate == Some(onupdate),
    {
        self.onupdate = Some(onupdate);
    }
}

/// Runs `run` with a fresh executor.
pub fn with_executor_context<U, F: FnOnce(AsyncExecutor<U>)>(run: F)
    requires
        forall|e: AsyncExecutor<U>| e.onupdate is None ==> call_requires(run, (e,)),
    ensures
        exists|e: AsyncExecutor<U>| e.onupdate is None && call_ensures(run, (e,), ()),
{
    run(AsyncExecutor::new())
}

} // verus!
