//! Provides API to define task executors.

use vstd::prelude::*;

verus! {

/// Abstract scoped task executor.
///
/// Executes provided closures potentially in parallel.
pub trait ScopedExecutor<'scope> {
    /// Spawns a task on the scope.
    fn spawn<F: FnOnce(&Self) + core::marker::Send + 'scope>(&self, f: F)
        requires
            f.requires((self,)),
    ;
}

/// Mock executor that runs tasks on the current thread.
#[derive(Clone, Copy, Debug)]
pub struct MockExecutor;

impl<'scope> ScopedExecutor<'scope> for MockExecutor {
    /// Runs the task right away.
    fn spawn<F: FnOnce(&Self) + core::marker::Send + 'scope>(&self, f: F) {
        f(self)
    }
}

} // verus!
